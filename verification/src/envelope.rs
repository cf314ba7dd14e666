//! Decoding the envelope of a request: the headers to relay, the header
//! mapping, and the merged set of headers that goes upstream.

use crate::codec::join_bare_headers;
use crate::codec::carries_no_mapping;
use crate::codec::joined;
use crate::codec::lemma_chunk_run_from;
use crate::codec::lemma_split_then_join;
use crate::codec::sends_mapping;
use crate::codec::split_fields;
use crate::error::invalid_header_named;
use crate::error::shown;
use crate::error::Error;
use crate::error::ErrorKind;
use crate::error::ErrorWithContext;
use crate::header::append_header;
use crate::header::fields;
use crate::header::find_header;
use crate::header::first_named;
use crate::header::has_header;
use crate::header::is_header_name;
use crate::header::is_valid_field;
use crate::header::lemma_first_named;
use crate::header::lemma_first_named_same;
use crate::header::lemma_lookup_push;
use crate::header::lemma_without;
use crate::header::lookup;
use crate::header::remove_header;
use crate::header::valid_name;
use crate::header::without;
use crate::header::Field;
use crate::header::Header;
use crate::json::lists_mapping;
use crate::json::parsed_mapping;
use crate::json::read_mapping;
use crate::names::chunk_name_bytes;
use crate::names::bare_headers;
use crate::names::content_length;
use crate::names::forward_headers;
use crate::names::host;
use crate::names::list_separator;
use crate::names::pass_headers;
use crate::names::pass_status;
use crate::text::ascii;
use crate::text::bytes_of;
use crate::text::bytes_equal;
use crate::text::copy_bytes;
use crate::text::literal;
use crate::text::same_name;
use crate::text::split_on;
use crate::text::split_text;
use crate::text::texts;
use crate::text::texts_of;
use vstd::prelude::*;

verus! {

/// Whether a name in the list of headers to relay is passed over: it is
/// empty, or one of `connection`, `transfer-encoding`, `host`, `origin` and
/// `referer`, written exactly so.
pub open spec fn is_denied(name: Seq<u8>) -> bool {
    ||| name.len() == 0
    ||| name == ascii("connection"@)
    ||| name == ascii("transfer-encoding"@)
    ||| name == ascii("host"@)
    ||| name == ascii("origin"@)
    ||| name == ascii("referer"@)
}

/// Decides [`is_denied`].
pub fn denied(name: &[u8]) -> (r: bool)
    ensures
        r == is_denied(name@),
{
    proof {
        reveal_strlit("connection");
        reveal_strlit("transfer-encoding");
        reveal_strlit("host");
        reveal_strlit("origin");
        reveal_strlit("referer");
    }
    name.len() == 0 || bytes_equal(name, literal("connection").as_slice()) || bytes_equal(
        name,
        literal("transfer-encoding").as_slice(),
    ) || bytes_equal(name, literal("host").as_slice()) || bytes_equal(
        name,
        literal("origin").as_slice(),
    ) || bytes_equal(name, literal("referer").as_slice())
}

/// The names that are not passed over, in their order.
pub open spec fn allowed(names: Seq<Seq<u8>>) -> Seq<Seq<u8>>
    decreases names.len(),
{
    if names.len() == 0 {
        Seq::empty()
    } else if is_denied(names.last()) {
        allowed(names.drop_last())
    } else {
        allowed(names.drop_last()).push(names.last())
    }
}

/// The entries of a list header: the pieces of its value between commas
/// followed by a space, or nothing if the header was not sent.
pub open spec fn listed(list: Seq<Field>, name: Seq<u8>) -> Option<Seq<Seq<u8>>> {
    match lookup(list, name) {
        Some(value) => Some(split_on(value, list_separator())),
        None => None,
    }
}

/// The names of the inbound headers that the client asks to relay: the
/// entries of `x-bare-forward-headers` that are not passed over.
pub open spec fn forward_names(list: Seq<Field>) -> Seq<Seq<u8>> {
    match listed(list, forward_headers()) {
        Some(names) => allowed(names),
        None => Seq::empty(),
    }
}

/// Reads a list header; see [`listed`].
pub fn read_list(headers: &Vec<Header>, name: &[u8]) -> (r: Option<Vec<Vec<u8>>>)
    ensures
        match r {
            Some(entries) => listed(fields(headers@), name@) == Some(texts(entries@)),
            None => listed(fields(headers@), name@) is None,
        },
{
    proof {
        reveal_strlit(", ");
    }
    let at: usize = find_header(headers, name);
    if at < headers.len() {
        let separator: Vec<u8> = literal(", ");
        Some(split_text(headers[at].value.as_slice(), separator.as_slice()))
    } else {
        None
    }
}

/// The names of the inbound headers to relay; see [`forward_names`].
pub fn decode_forward_headers(headers: &Vec<Header>) -> (r: Vec<Vec<u8>>)
    ensures
        texts(r@) == forward_names(fields(headers@)),
{
    proof {
        reveal_strlit("x-bare-forward-headers");
    }
    let name: Vec<u8> = literal("x-bare-forward-headers");
    let mut kept: Vec<Vec<u8>> = Vec::new();
    match read_list(headers, name.as_slice()) {
        None => {
            assert(texts(kept@) =~= Seq::<Seq<u8>>::empty());
        },
        Some(names) => {
            let mut i: usize = 0;
            assert(texts(kept@) =~= Seq::<Seq<u8>>::empty());
            while i < names.len()
                invariant
                    i <= names.len(),
                    texts(kept@) == allowed(texts(names@).take(i as int)),
                decreases names.len() - i,
            {
                let ghost before = texts(kept@);
                if !denied(names[i].as_slice()) {
                    kept.push(copy_bytes(names[i].as_slice()));
                    assert(texts(kept@) =~= before.push(names@[i as int]@));
                }
                i += 1;
                proof {
                    let now = texts(names@).take(i as int);
                    assert(now.drop_last() =~= texts(names@).take(i - 1));
                }
            }
            assert(texts(names@).take(names.len() as int) =~= texts(names@));
        },
    }
    kept
}

/// The position of the first name that is not a well-formed header name,
/// or the number of names if all are.
pub open spec fn first_bad_name(names: Seq<Seq<u8>>, from: int) -> int
    decreases names.len() - from,
{
    if from >= names.len() {
        names.len() as int
    } else if 0 <= from && !is_header_name(names[from]) {
        from
    } else {
        first_bad_name(names, from + 1)
    }
}

/// The inbound headers that are relayed: for each name in turn, the first
/// inbound header of that name, as the client sent it. A name without such a
/// header relays nothing.
pub open spec fn relayed(list: Seq<Field>, names: Seq<Seq<u8>>) -> Seq<Field>
    decreases names.len(),
{
    if names.len() == 0 {
        Seq::empty()
    } else if has_header(list, names.last()) {
        relayed(list, names.drop_last()).push(list[first_named(list, names.last(), 0)])
    } else {
        relayed(list, names.drop_last())
    }
}

/// Picks the headers of the given names out of a list; see [`relayed`].
pub fn pick_headers(headers: &Vec<Header>, names: &Vec<Vec<u8>>) -> (r: Vec<Header>)
    ensures
        fields(r@) == relayed(fields(headers@), texts(names@)),
{
    let mut out: Vec<Header> = Vec::new();
    let mut i: usize = 0;
    assert(fields(out@) =~= Seq::<Field>::empty());
    while i < names.len()
        invariant
            i <= names.len(),
            fields(out@) == relayed(fields(headers@), texts(names@).take(i as int)),
        decreases names.len() - i,
    {
        let ghost before = fields(out@);
        let at: usize = find_header(headers, names[i].as_slice());
        if at < headers.len() {
            out.push(headers[at].copy());
            assert(fields(out@) =~= before.push(headers@[at as int]@));
        }
        i += 1;
        proof {
            let now = texts(names@).take(i as int);
            assert(now.drop_last() =~= texts(names@).take(i - 1));
            assert(now.last() == names@[i - 1]@);
        }
    }
    assert(texts(names@).take(names.len() as int) =~= texts(names@));
    out
}

/// What relaying the named headers comes to: the first name that is not
/// well formed is reported as an invalid header; without one, the headers
/// of [`relayed`] are handed on.
pub open spec fn forwarded(list: Seq<Field>, names: Seq<Seq<u8>>) -> Result<Seq<Field>, ErrorKind> {
    let bad = first_bad_name(names, 0);
    if bad < names.len() {
        Err(ErrorKind::InvalidHeader(shown(names[bad])))
    } else {
        Ok(relayed(list, names))
    }
}

/// Relays the named inbound headers; see [`forwarded`].
///
/// Every error comes with the context `While relaying headers`.
pub fn relay_headers(headers: &Vec<Header>, names: &Vec<Vec<u8>>) -> (r: Result<
    Vec<Header>,
    ErrorWithContext,
>)
    ensures
        match r {
            Ok(list) => forwarded(fields(headers@), texts(names@)) == Ok::<
                Seq<Field>,
                ErrorKind,
            >(fields(list@)),
            Err(e) => forwarded(fields(headers@), texts(names@)) == Err::<Seq<Field>, ErrorKind>(
                e.error@,
            ) && e.context@ == "While relaying headers"@,
        },
{
    let mut i: usize = 0;
    while i < names.len()
        invariant
            i <= names.len(),
            first_bad_name(texts(names@), 0) == first_bad_name(texts(names@), i as int),
        decreases names.len() - i,
    {
        if !valid_name(names[i].as_slice()) {
            return Err(invalid_header_named(names[i].as_slice(), "While relaying headers"));
        }
        i += 1;
    }
    Ok(pick_headers(headers, names))
}

/// The position of the first header that is not well formed, or the length
/// of the list if all are.
pub open spec fn first_invalid(list: Seq<Field>, from: int) -> int
    decreases list.len() - from,
{
    if from >= list.len() {
        list.len() as int
    } else if 0 <= from && !is_valid_field(list[from]) {
        from
    } else {
        first_invalid(list, from + 1)
    }
}

/// Every header before [`first_invalid`] is well formed.
pub proof fn lemma_first_invalid(list: Seq<Field>, from: int)
    requires
        0 <= from <= list.len(),
    ensures
        from <= first_invalid(list, from) <= list.len(),
        first_invalid(list, from) < list.len() ==> !is_valid_field(list[first_invalid(list, from)]),
        forall|j: int| from <= j < first_invalid(list, from) ==> is_valid_field(#[trigger] list[j]),
    decreases list.len() - from,
{
    if from < list.len() && is_valid_field(list[from]) {
        lemma_first_invalid(list, from + 1);
    }
}

/// The headers that are brought together before `host` is taken out: the
/// relayed ones, then the mapping's, then the inbound `content-length` if
/// there is one.
pub open spec fn gathered(
    forwarded: Seq<Field>,
    bare: Seq<Field>,
    length: Option<Seq<u8>>,
) -> Seq<Field> {
    forwarded + bare + match length {
        Some(value) => seq![Field { name: content_length(), value }],
        None => Seq::empty(),
    }
}

/// The merged set of headers, or why there is none: the first gathered
/// header that is not well formed is reported as invalid; without one, the
/// gathered headers are kept but for those named `host`.
pub open spec fn merged(
    forwarded: Seq<Field>,
    bare: Seq<Field>,
    length: Option<Seq<u8>>,
) -> Result<Seq<Field>, ErrorKind> {
    let all = gathered(forwarded, bare, length);
    let bad = first_invalid(all, 0);
    if bad < all.len() {
        Err(ErrorKind::InvalidHeader(shown(all[bad].name)))
    } else {
        Ok(without(all, host()))
    }
}

/// Whether a list can go upstream: every header is well formed and none is
/// named `host`, in any casing.
pub open spec fn is_processed(list: Seq<Field>) -> bool {
    &&& forall|i: int| 0 <= i < list.len() ==> is_valid_field(#[trigger] list[i])
    &&& forall|i: int| 0 <= i < list.len() ==> !same_name((#[trigger] list[i]).name, host())
}

/// Whatever is merged, and whoever named it, in whatever casing: no header
/// named `host` is in the merged set, and every header in it is well formed.
pub proof fn lemma_merged_is_processed(
    forwarded: Seq<Field>,
    bare: Seq<Field>,
    length: Option<Seq<u8>>,
)
    ensures
        merged(forwarded, bare, length) matches Ok(list) ==> is_processed(list) && !has_header(
            list,
            host(),
        ),
{
    let all = gathered(forwarded, bare, length);
    lemma_first_invalid(all, 0);
    lemma_without(all, host());
    let kept = without(all, host());
    if first_invalid(all, 0) >= all.len() {
        assert forall|k: int| 0 <= k < kept.len() implies is_valid_field(#[trigger] kept[k]) by {
            assert(all.contains(kept[k]));
            let at = choose|at: int| 0 <= at < all.len() && all[at] == kept[k];
            assert(is_valid_field(all[at]));
        }
    }
}

/// The validated, merged set of headers that goes upstream.
#[derive(Debug, Clone, PartialEq, Eq)]
pub struct ProcessedHeaders {
    list: Vec<Header>,
}

impl View for ProcessedHeaders {
    type V = Seq<Field>;

    closed spec fn view(&self) -> Seq<Field> {
        fields(self.list@)
    }
}

impl ProcessedHeaders {
    /// Whether the set keeps its promise; every set that [`merge`] hands out
    /// does.
    pub open spec fn wf(&self) -> bool {
        is_processed(self@)
    }

    /// The headers, in order.
    pub fn headers(&self) -> (r: &Vec<Header>)
        ensures
            fields(r@) == self@,
    {
        &self.list
    }

    /// The headers, in order, as a list of their own.
    pub fn into_headers(self) -> (r: Vec<Header>)
        ensures
            fields(r@) == self@,
    {
        self.list
    }

    /// The number of headers.
    pub fn len(&self) -> (r: usize)
        ensures
            r == self@.len(),
    {
        self.list.len()
    }
}

/// The outcome of [`merge`] in the terms of [`merged`].
pub open spec fn merge_result(r: Result<ProcessedHeaders, ErrorWithContext>) -> Result<
    Seq<Field>,
    ErrorKind,
> {
    match r {
        Ok(processed) => Ok(processed@),
        Err(e) => Err(e.error@),
    }
}

/// Merges the relayed headers, the headers of the mapping and the inbound
/// `content-length` into the set that goes upstream; see [`merged`].
///
/// `host` never goes upstream, whoever named it and in whatever casing.
/// Every error comes with the context `While merging headers`.
pub fn merge(forwarded: Vec<Header>, bare: Vec<Header>, length: Option<Vec<u8>>) -> (r: Result<
    ProcessedHeaders,
    ErrorWithContext,
>)
    ensures
        merge_result(r) == merged(fields(forwarded@), fields(bare@), bytes_of(length)),
        r matches Ok(processed) ==> processed.wf(),
        r matches Err(e) ==> e.context@ == "While merging headers"@,
{
    proof {
        reveal_strlit("content-length");
        reveal_strlit("host");
    }
    let ghost all = gathered(fields(forwarded@), fields(bare@), bytes_of(length));
    let mut list: Vec<Header> = forwarded;
    let mut rest: Vec<Header> = bare;
    let ghost front = fields(list@);
    let ghost back = fields(rest@);
    list.append(&mut rest);
    assert(fields(list@) =~= front + back);
    match length {
        Some(value) => {
            let ghost so_far = fields(list@);
            let name: Vec<u8> = literal("content-length");
            append_header(&mut list, name.as_slice(), value.as_slice());
            assert(fields(list@) =~= so_far + seq![Field { name: content_length(), value: value@ }]);
        },
        None => {
            assert(fields(list@) =~= fields(list@) + Seq::<Field>::empty());
        },
    }
    assert(fields(list@) == all);
    let mut i: usize = 0;
    while i < list.len()
        invariant
            i <= list.len(),
            fields(list@) == all,
            all == gathered(fields(forwarded@), fields(bare@), bytes_of(length)),
            first_invalid(all, 0) == first_invalid(all, i as int),
        decreases list.len() - i,
    {
        if !list[i].is_valid() {
            proof {
                assert(all[i as int] == list@[i as int]@);
                assert(first_invalid(all, i as int) == i);
            }
            return Err(invalid_header_named(list[i].name.as_slice(), "While merging headers"));
        }
        proof {
            assert(all[i as int] == list@[i as int]@);
        }
        i += 1;
    }
    let name: Vec<u8> = literal("host");
    remove_header(&mut list, name.as_slice());
    proof {
        lemma_merged_is_processed(fields(forwarded@), fields(bare@), bytes_of(length));
    }
    Ok(ProcessedHeaders { list })
}

/// The header mapping that a request carries, or why it cannot be read.
///
/// A request that sends no mapping carries the empty one. Else the text is
/// joined as [`joined`] says and read as a JSON object of strings; a text
/// that is no such object makes the mapping unreadable.
pub open spec fn decoded(list: Seq<Field>) -> Result<Map<Seq<u8>, Seq<u8>>, ErrorKind> {
    if !sends_mapping(list) {
        Ok(Map::empty())
    } else {
        match joined(list) {
            Err(e) => Err(e),
            Ok(text) => match parsed_mapping(text) {
                Some(mapping) => Ok(mapping),
                None => Err(ErrorKind::InvalidBareHeader("x-bare-headers"@)),
            },
        }
    }
}

/// A request that sends no mapping carries the empty one, which is no
/// error. One whose joined text is no JSON object of strings is refused as
/// unreadable. Every failure to decode is one of the client's making.
pub proof fn lemma_decoded(list: Seq<Field>)
    ensures
        !sends_mapping(list) ==> decoded(list) == Ok::<Map<Seq<u8>, Seq<u8>>, ErrorKind>(
            Map::empty(),
        ),
        sends_mapping(list) ==> (joined(list) matches Ok(text) ==> (parsed_mapping(text) is None
            ==> decoded(list) == Err::<Map<Seq<u8>, Seq<u8>>, ErrorKind>(
            ErrorKind::InvalidBareHeader("x-bare-headers"@),
        ))),
        decoded(list) matches Err(kind) ==> crate::error::status_of(kind) == 400,
{
}

/// A mapping decodes alike whether it is sent whole or in chunks: the main
/// header, among headers that carry no part of a mapping, decodes to what
/// the same list decodes to once it is split for the wire.
pub proof fn lemma_split_decodes_alike(
    before: Seq<Field>,
    name: Seq<u8>,
    value: Seq<u8>,
    after: Seq<Field>,
)
    requires
        same_name(name, bare_headers()),
        carries_no_mapping(before),
        carries_no_mapping(after),
    ensures
        decoded(split_fields(before + seq![Field { name, value }] + after)) == decoded(
            before + seq![Field { name, value }] + after,
        ),
{
    lemma_split_then_join(before, name, value, after);
}

/// The relayed headers hold a header of a name exactly when the name was
/// asked for and the list has it; the header is then the list's.
pub proof fn lemma_relayed_lookup(list: Seq<Field>, names: Seq<Seq<u8>>, other: Seq<u8>)
    ensures
        lookup(relayed(list, names), other) == if exists|i: int|
            0 <= i < names.len() && same_name(#[trigger] names[i], other) {
            lookup(list, other)
        } else {
            None
        },
    decreases names.len(),
{
    if names.len() > 0 {
        let front = names.drop_last();
        let last = names.last();
        lemma_relayed_lookup(list, front, other);
        let asked_before = exists|i: int| 0 <= i < front.len() && same_name(#[trigger] front[i], other);
        let asked = exists|i: int| 0 <= i < names.len() && same_name(#[trigger] names[i], other);
        if asked_before {
            let i = choose|i: int| 0 <= i < front.len() && same_name(#[trigger] front[i], other);
            assert(same_name(names[i], other));
        }
        if same_name(last, other) {
            assert(same_name(names[names.len() - 1], other));
            lemma_first_named_same(list, last, other, 0);
        }
        if asked && !asked_before {
            let i = choose|i: int| 0 <= i < names.len() && same_name(#[trigger] names[i], other);
            if i < front.len() {
                assert(same_name(front[i], other));
            }
        }
        lemma_first_named(list, last, 0);
        lemma_first_named(list, other, 0);
        if has_header(list, last) {
            lemma_lookup_push(relayed(list, front), list[first_named(list, last, 0)], other);
        }
    }
}

/// The note that goes with an undecodable mapping: it says whether the text
/// could not be joined, or was joined and could not be read.
pub open spec fn decode_note(list: Seq<Field>) -> Seq<char> {
    if joined(list) is Err {
        "While joining headers"@
    } else {
        "While reading the header mapping"@
    }
}

/// What the reading of a mapping's text comes to: its entries, or the
/// failure that an unreadable mapping is reported as, with the context
/// `While reading the header mapping`.
pub fn mapping_entries(parsed: Option<Vec<Header>>) -> (r: Result<Vec<Header>, ErrorWithContext>)
    ensures
        match (parsed, r) {
            (Some(given), Ok(list)) => list == given,
            (None, Err(e)) => e.error@ == ErrorKind::InvalidBareHeader("x-bare-headers"@)
                && e.context@ == "While reading the header mapping"@,
            _ => false,
        },
{
    match parsed {
        Some(list) => Ok(list),
        None => Err(
            ErrorWithContext::new(
                Error::InvalidBareHeader("x-bare-headers".to_owned()),
                "While reading the header mapping",
            ),
        ),
    }
}

/// Whether a request sends a header mapping; see [`sends_mapping`].
pub fn has_mapping(headers: &Vec<Header>) -> (r: bool)
    ensures
        r == sends_mapping(fields(headers@)),
{
    proof {
        reveal_strlit("x-bare-headers");
    }
    let main: Vec<u8> = literal("x-bare-headers");
    if find_header(headers, main.as_slice()) < headers.len() {
        return true;
    }
    if headers.len() == 0 {
        return false;
    }
    let first: Vec<u8> = chunk_name_bytes(0);
    let found: bool = find_header(headers, first.as_slice()) < headers.len();
    proof {
        let list = fields(headers@);
        if found {
            lemma_chunk_run_from(list, 1);
        }
    }
    found
}

/// Decodes the header mapping of a request; see [`decoded`].
///
/// The entries come in no particular order. A request without the main
/// header and without chunks yields no entries and no error.
pub fn decode_bare_headers(headers: &Vec<Header>) -> (r: Result<Vec<Header>, ErrorWithContext>)
    ensures
        match r {
            Ok(list) => decoded(fields(headers@)) matches Ok(mapping) && lists_mapping(
                fields(list@),
                mapping,
            ),
            Err(e) => decoded(fields(headers@)) == Err::<Map<Seq<u8>, Seq<u8>>, ErrorKind>(
                e.error@,
            ) && e.context@ == decode_note(fields(headers@)),
        },
        !sends_mapping(fields(headers@)) ==> (r matches Ok(list) && list@.len() == 0),
{
    if !has_mapping(headers) {
        return Ok(Vec::new());
    }
    match join_bare_headers(headers) {
        Err(e) => Err(e),
        Ok(text) => mapping_entries(read_mapping(text.as_slice())),
    }
}

/// What one request's handling carries from the decoding of its envelope
/// to the composing of its response.
#[derive(Debug, Clone, PartialEq, Eq)]
pub struct RequestData {
    /// The headers that go upstream.
    pub processed_headers: ProcessedHeaders,
    /// The upstream headers that the client wants handed back as they are.
    pub pass_headers: Option<Vec<Vec<u8>>>,
    /// The upstream statuses that the client wants as the transport status.
    pub status: Option<Vec<Vec<u8>>>,
}

impl RequestData {
    /// The three parts, each open to change.
    pub fn explode_ref_mut(&mut self) -> (r: (
        &mut ProcessedHeaders,
        &mut Option<Vec<Vec<u8>>>,
        &mut Option<Vec<Vec<u8>>>,
    ))
        ensures
            *r.0 == old(self).processed_headers,
            *r.1 == old(self).pass_headers,
            *r.2 == old(self).status,
            *final(self) == (RequestData {
                processed_headers: *final(r.0),
                pass_headers: *final(r.1),
                status: *final(r.2),
            }),
    {
        (&mut self.processed_headers, &mut self.pass_headers, &mut self.status)
    }
}

/// The headers that go upstream for a request, given the entries of its
/// header mapping: the relayed headers, the entries and the inbound
/// `content-length`, merged.
pub open spec fn assembled(list: Seq<Field>, bare: Seq<Field>) -> Result<Seq<Field>, ErrorKind> {
    match forwarded(list, forward_names(list)) {
        Err(e) => Err(e),
        Ok(relay) => merged(relay, bare, lookup(list, content_length())),
    }
}

/// The note that goes with a failure of [`assembled`]: it says whether the
/// relaying failed or the merging.
pub open spec fn assemble_note(list: Seq<Field>) -> Seq<char> {
    if forwarded(list, forward_names(list)) is Err {
        "While relaying headers"@
    } else {
        "While merging headers"@
    }
}

/// Whether the allowlists of a request's data are those that the request
/// sent: the entries of `x-bare-pass-headers` and of `x-bare-pass-status`,
/// or nothing where the header was not sent.
pub open spec fn allowlists_read(data: RequestData, list: Seq<Field>) -> bool {
    &&& texts_of(data.pass_headers) == listed(list, pass_headers())
    &&& texts_of(data.status) == listed(list, pass_status())
}

/// Assembles the data of a request from its inbound headers and the entries
/// of its header mapping; see [`assembled`] and [`allowlists_read`].
pub fn assemble(headers: &Vec<Header>, bare: Vec<Header>) -> (r: Result<
    RequestData,
    ErrorWithContext,
>)
    ensures
        match r {
            Ok(data) => assembled(fields(headers@), fields(bare@)) == Ok::<
                Seq<Field>,
                ErrorKind,
            >(data.processed_headers@) && data.processed_headers.wf() && allowlists_read(
                data,
                fields(headers@),
            ),
            Err(e) => assembled(fields(headers@), fields(bare@)) == Err::<Seq<Field>, ErrorKind>(
                e.error@,
            ) && e.context@ == assemble_note(fields(headers@)),
        },
{
    proof {
        reveal_strlit("content-length");
        reveal_strlit("x-bare-pass-headers");
        reveal_strlit("x-bare-pass-status");
    }
    let names: Vec<Vec<u8>> = decode_forward_headers(headers);
    let relay: Vec<Header> = match relay_headers(headers, &names) {
        Ok(list) => list,
        Err(e) => {
            return Err(e);
        },
    };
    let length_name: Vec<u8> = literal("content-length");
    let length: Option<Vec<u8>> = crate::header::get_header(headers, length_name.as_slice());
    let processed_headers: ProcessedHeaders = match merge(relay, bare, length) {
        Ok(processed) => processed,
        Err(e) => {
            return Err(e);
        },
    };
    let pass_name: Vec<u8> = literal("x-bare-pass-headers");
    let status_name: Vec<u8> = literal("x-bare-pass-status");
    let pass_headers: Option<Vec<Vec<u8>>> = read_list(headers, pass_name.as_slice());
    let status: Option<Vec<Vec<u8>>> = read_list(headers, status_name.as_slice());
    Ok(RequestData { processed_headers, pass_headers, status })
}

/// Decodes the envelope of a request: the header mapping is decoded, the
/// headers to relay are picked, and all is merged into the data of the
/// request.
///
/// The headers that go upstream are those of [`assembled`] for some listing
/// of the decoded mapping; an undecodable mapping is reported first. `host`
/// is never among the headers that go upstream.
pub fn process_headers(headers: &Vec<Header>) -> (r: Result<RequestData, ErrorWithContext>)
    ensures
        match r {
            Ok(data) => decoded(fields(headers@)) matches Ok(mapping) && exists|bare: Seq<Field>|
                #![trigger lists_mapping(bare, mapping)]
                lists_mapping(bare, mapping) && assembled(fields(headers@), bare) == Ok::<
                    Seq<Field>,
                    ErrorKind,
                >(data.processed_headers@) && data.processed_headers.wf() && allowlists_read(
                data,
                fields(headers@),
            ),
            Err(e) => match decoded(fields(headers@)) {
                Err(kind) => e.error@ == kind && e.context@ == decode_note(fields(headers@)),
                Ok(mapping) => e.context@ == assemble_note(fields(headers@)) && exists|
                    bare: Seq<Field>,
                |
                    #![trigger lists_mapping(bare, mapping)]
                    lists_mapping(bare, mapping) && assembled(fields(headers@), bare) == Err::<
                        Seq<Field>,
                        ErrorKind,
                    >(e.error@),
            },
        },
{
    let bare: Vec<Header> = match decode_bare_headers(headers) {
        Ok(list) => list,
        Err(e) => {
            return Err(e);
        },
    };
    let ghost listing = fields(bare@);
    let r = assemble(headers, bare);
    proof {
        let mapping = decoded(fields(headers@))->Ok_0;
        assert(lists_mapping(listing, mapping));
    }
    r
}

} // verus!
