//! Composing the response that goes back to the client from what upstream
//! answered.

use crate::codec::expanded;
use crate::codec::joined;
use crate::codec::lemma_join_like_split;
use crate::codec::split_fields;
use crate::codec::split_headers;
use crate::envelope::lemma_relayed_lookup;
use crate::envelope::pick_headers;
use crate::envelope::relayed;
use crate::error::ErrorKind;
use crate::header::fields;
use crate::header::find_header;
use crate::header::lemma_first_named;
use crate::header::lemma_lookup_concat;
use crate::header::lemma_with_only;
use crate::header::lookup;
use crate::header::set_header;
use crate::header::with_only;
use crate::header::Field;
use crate::header::Header;
use crate::json::object_text;
use crate::json::write_mapping;
use crate::names::allow_headers;
use crate::names::allow_methods;
use crate::names::allow_origin;
use crate::names::bare_headers;
use crate::names::bare_status;
use crate::names::bare_status_text;
use crate::names::chunk_name;
use crate::names::content_type;
use crate::names::expose_headers;
use crate::names::lemma_response_names_carry_no_mapping;
use crate::names::lemma_response_names_differ;
use crate::names::response_names;
use crate::text::ascii;
use crate::text::bytes_of;
use crate::text::bytes_equal;
use crate::text::decimal;
use crate::text::decimal_text;
use crate::text::literal;
use crate::text::same_name;
use crate::text::texts;
use crate::text::texts_of;
use vstd::prelude::*;

verus! {

/// The words that go with a status, as `http::StatusCode::canonical_reason`
/// gives them, or nothing where the number is no status or has no words of
/// its own.
pub uninterp spec fn reason_phrase(status: u16) -> Option<Seq<u8>>;

/// Calls `http::StatusCode::from_u16` and, on the status it gives,
/// `http::StatusCode::canonical_reason`. Taken on trust: the result depends
/// on the number alone, and a number below 100 or from 1000 up is refused
/// as no status, so that it has no words.
#[verifier::external_body]
fn canonical_reason(status: u16) -> (r: Option<Vec<u8>>)
    ensures
        bytes_of(r) == reason_phrase(status),
        (status < 100 || status >= 1000) ==> r is None,
{
    match http::StatusCode::from_u16(status) {
        Ok(code) => code.canonical_reason().map(|words| words.as_bytes().to_vec()),
        Err(_) => None,
    }
}

/// The status that the client sees on the transport: the upstream status
/// where the client allows it, written as a decimal number, and 200 in every
/// other case.
pub open spec fn transport_status(status: u16, allowed: Option<Seq<Seq<u8>>>) -> u16 {
    match allowed {
        Some(list) => if list.contains(decimal(status as nat)) {
            status
        } else {
            200
        },
        None => 200,
    }
}

/// Without a list of allowed statuses the client sees 200 on the transport,
/// whatever upstream answered; with one, it sees the upstream status exactly
/// when the list holds that status as a decimal number.
pub proof fn lemma_transport_status(status: u16, allowed: Seq<Seq<u8>>)
    ensures
        transport_status(status, None) == 200,
        allowed.contains(decimal(status as nat)) ==> transport_status(status, Some(allowed))
            == status,
        !allowed.contains(decimal(status as nat)) ==> transport_status(status, Some(allowed))
            == 200,
{
}

/// Whether a text stands in a list.
pub fn contains_text(list: &Vec<Vec<u8>>, text: &[u8]) -> (r: bool)
    ensures
        r == texts(list@).contains(text@),
{
    let mut i: usize = 0;
    while i < list.len()
        invariant
            i <= list.len(),
            forall|j: int| 0 <= j < i ==> texts(list@)[j] != text@,
        decreases list.len() - i,
    {
        if bytes_equal(list[i].as_slice(), text) {
            assert(texts(list@)[i as int] == text@);
            return true;
        }
        i += 1;
    }
    false
}

/// A list with the four headers that open a response to any origin, each
/// set to `*`.
pub open spec fn with_cors(list: Seq<Field>) -> Seq<Field> {
    let star = ascii("*"@);
    with_only(
        with_only(
            with_only(with_only(list, allow_origin(), star), allow_headers(), star),
            allow_methods(),
            star,
        ),
        expose_headers(),
        star,
    )
}

/// Opens a response to any origin, any header and any method; see
/// [`with_cors`].
pub fn add_cors_headers(headers: &mut Vec<Header>)
    ensures
        fields(final(headers)@) == with_cors(fields(old(headers)@)),
{
    proof {
        reveal_strlit("*");
        reveal_strlit("access-control-allow-origin");
        reveal_strlit("access-control-allow-headers");
        reveal_strlit("access-control-allow-methods");
        reveal_strlit("access-control-expose-headers");
    }
    let star: Vec<u8> = literal("*");
    set_header(headers, literal("access-control-allow-origin").as_slice(), star.as_slice());
    set_header(headers, literal("access-control-allow-headers").as_slice(), star.as_slice());
    set_header(headers, literal("access-control-allow-methods").as_slice(), star.as_slice());
    set_header(headers, literal("access-control-expose-headers").as_slice(), star.as_slice());
}

/// The upstream headers that are handed back as they are: for each allowed
/// name in turn, the first upstream header of that name.
pub open spec fn passed(upstream: Seq<Field>, allowed: Option<Seq<Seq<u8>>>) -> Seq<Field> {
    match allowed {
        Some(names) => relayed(upstream, names),
        None => Seq::empty(),
    }
}

/// A list with the content type that upstream gave, if it gave one.
pub open spec fn with_content_type(list: Seq<Field>, upstream: Seq<Field>) -> Seq<Field> {
    match lookup(upstream, content_type()) {
        Some(value) => with_only(list, content_type(), value),
        None => list,
    }
}

/// The headers of the response to the client.
///
/// First the whole upstream header set as one JSON text under
/// `x-bare-headers`, split where it is too long. Then the upstream headers
/// that the client asked for. Then, each replacing whatever bore its name
/// before: the upstream content type, the upstream status as a number and
/// as words, and the four headers that open the response to any origin.
pub open spec fn composed_headers(
    status: u16,
    reason: Seq<u8>,
    upstream: Seq<Field>,
    allowed: Option<Seq<Seq<u8>>>,
) -> Seq<Field> {
    let mapping = split_fields(seq![Field { name: bare_headers(), value: object_text(upstream) }]);
    let typed = with_content_type(mapping + passed(upstream, allowed), upstream);
    with_cors(
        with_only(
            with_only(typed, bare_status(), decimal(status as nat)),
            bare_status_text(),
            reason,
        ),
    )
}

/// Every composed response names the upstream status as a number and as
/// words and is open to any origin, and it bears the upstream content type
/// whenever upstream gave one, whatever the client allowed.
pub proof fn lemma_composed_headers(
    status: u16,
    reason: Seq<u8>,
    upstream: Seq<Field>,
    allowed: Option<Seq<Seq<u8>>>,
)
    ensures
        ({
            let headers = composed_headers(status, reason, upstream, allowed);
            &&& lookup(headers, bare_status()) == Some(decimal(status as nat))
            &&& lookup(headers, bare_status_text()) == Some(reason)
            &&& lookup(headers, allow_origin()) == Some(ascii("*"@))
            &&& lookup(headers, allow_headers()) == Some(ascii("*"@))
            &&& lookup(headers, allow_methods()) == Some(ascii("*"@))
            &&& lookup(headers, expose_headers()) == Some(ascii("*"@))
            &&& lookup(upstream, content_type()) is Some ==> lookup(headers, content_type())
                == lookup(upstream, content_type())
        }),
{
    lemma_response_names_differ();
    let names = response_names();
    assert(names[0] == content_type() && names[1] == bare_status() && names[2]
        == bare_status_text() && names[3] == allow_origin() && names[4] == allow_headers()
        && names[5] == allow_methods() && names[6] == expose_headers());
    let star = ascii("*"@);
    let mapping = split_fields(seq![Field { name: bare_headers(), value: object_text(upstream) }]);
    let base = mapping + passed(upstream, allowed);
    let typed = with_content_type(base, upstream);
    let a = with_only(typed, bare_status(), decimal(status as nat));
    let b = with_only(a, bare_status_text(), reason);
    let c = with_only(b, allow_origin(), star);
    let d = with_only(c, allow_headers(), star);
    let e = with_only(d, allow_methods(), star);
    let f = with_only(e, expose_headers(), star);
    assert(f == composed_headers(status, reason, upstream, allowed));
    if lookup(upstream, content_type()) is Some {
        lemma_with_only(base, content_type(), lookup(upstream, content_type())->0, names[1]);
    }
    assert forall|k: int| 0 <= k < 7 implies {
        &&& lookup(a, names[1]) == Some(decimal(status as nat))
        &&& lookup(b, names[2]) == Some(reason)
        &&& lookup(c, names[3]) == Some(star)
        &&& lookup(d, names[4]) == Some(star)
        &&& lookup(e, names[5]) == Some(star)
        &&& lookup(f, names[6]) == Some(star)
        &&& k != 1 ==> lookup(a, #[trigger] names[k]) == lookup(typed, names[k])
        &&& k != 2 ==> lookup(b, names[k]) == lookup(a, names[k])
        &&& k != 3 ==> lookup(c, names[k]) == lookup(b, names[k])
        &&& k != 4 ==> lookup(d, names[k]) == lookup(c, names[k])
        &&& k != 5 ==> lookup(e, names[k]) == lookup(d, names[k])
        &&& k != 6 ==> lookup(f, names[k]) == lookup(e, names[k])
    } by {
        lemma_with_only(typed, names[1], decimal(status as nat), names[k]);
        lemma_with_only(a, names[2], reason, names[k]);
        lemma_with_only(b, names[3], star, names[k]);
        lemma_with_only(c, names[4], star, names[k]);
        lemma_with_only(d, names[5], star, names[k]);
        lemma_with_only(e, names[6], star, names[k]);
    }
    assert(lookup(f, names[0]) == lookup(typed, names[0]));
    assert(lookup(f, names[1]) == lookup(a, names[1]));
    assert(lookup(f, names[2]) == lookup(b, names[2]));
    assert(lookup(f, names[3]) == lookup(c, names[3]));
    assert(lookup(f, names[4]) == lookup(d, names[4]));
    assert(lookup(f, names[5]) == lookup(e, names[5]));
}

/// A name that is none of those that every response carries is looked up
/// in the composed headers as it is among the mapping's headers and the
/// upstream headers that were asked for.
pub proof fn lemma_composed_lookup(
    status: u16,
    reason: Seq<u8>,
    upstream: Seq<Field>,
    allowed: Option<Seq<Seq<u8>>>,
    other: Seq<u8>,
)
    requires
        forall|i: int|
            0 <= i < response_names().len() ==> !same_name(#[trigger] response_names()[i], other),
    ensures
        lookup(composed_headers(status, reason, upstream, allowed), other) == lookup(
            split_fields(seq![Field { name: bare_headers(), value: object_text(upstream) }])
                + passed(upstream, allowed),
            other,
        ),
{
    let names = response_names();
    assert(names[0] == content_type() && names[1] == bare_status() && names[2]
        == bare_status_text() && names[3] == allow_origin() && names[4] == allow_headers()
        && names[5] == allow_methods() && names[6] == expose_headers());
    assert(!same_name(names[0], other) && !same_name(names[1], other) && !same_name(
        names[2],
        other,
    ) && !same_name(names[3], other) && !same_name(names[4], other) && !same_name(names[5], other)
        && !same_name(names[6], other));
    let star = ascii("*"@);
    let mapping = split_fields(seq![Field { name: bare_headers(), value: object_text(upstream) }]);
    let base = mapping + passed(upstream, allowed);
    let typed = with_content_type(base, upstream);
    let a = with_only(typed, bare_status(), decimal(status as nat));
    let b = with_only(a, bare_status_text(), reason);
    let c = with_only(b, allow_origin(), star);
    let d = with_only(c, allow_headers(), star);
    let e = with_only(d, allow_methods(), star);
    let f = with_only(e, expose_headers(), star);
    assert(f == composed_headers(status, reason, upstream, allowed));
    if lookup(upstream, content_type()) is Some {
        lemma_with_only(base, content_type(), lookup(upstream, content_type())->0, other);
    }
    lemma_with_only(typed, bare_status(), decimal(status as nat), other);
    lemma_with_only(a, bare_status_text(), reason, other);
    lemma_with_only(b, allow_origin(), star, other);
    lemma_with_only(c, allow_headers(), star, other);
    lemma_with_only(d, allow_methods(), star, other);
    lemma_with_only(e, expose_headers(), star, other);
}

/// Where the client asked for no upstream header by name, the response
/// carries the whole upstream header set: joining its mapping headers gives
/// the JSON text of the upstream headers, byte for byte, however long it is.
pub proof fn lemma_response_carries_upstream(status: u16, reason: Seq<u8>, upstream: Seq<Field>)
    ensures
        joined(composed_headers(status, reason, upstream, None)) == Ok::<Seq<u8>, ErrorKind>(
            object_text(upstream),
        ),
{
    let field = Field { name: bare_headers(), value: object_text(upstream) };
    let mapping = split_fields(seq![field]);
    let sent = composed_headers(status, reason, upstream, None);
    assert(seq![field].drop_last() =~= Seq::<Field>::empty());
    assert(split_fields(Seq::<Field>::empty()) =~= Seq::<Field>::empty());
    assert(mapping =~= expanded(field));
    assert(mapping + passed(upstream, None) =~= mapping);
    lemma_response_names_carry_no_mapping(0);
    lemma_composed_lookup(status, reason, upstream, None, bare_headers());
    assert forall|k: nat|
        lookup(sent, #[trigger] chunk_name(k)) == lookup(expanded(field), chunk_name(k)) by {
        lemma_response_names_carry_no_mapping(k);
        lemma_composed_lookup(status, reason, upstream, None, chunk_name(k));
    }
    lemma_join_like_split(sent, bare_headers(), object_text(upstream));
}

/// An upstream header that the client asked for by name is handed back as
/// upstream gave it, and one that upstream did not give is not handed back.
/// This holds of every name but those that every response carries and
/// those of the mapping's own headers.
pub proof fn lemma_passed_verbatim(
    status: u16,
    reason: Seq<u8>,
    upstream: Seq<Field>,
    names: Seq<Seq<u8>>,
    name: Seq<u8>,
)
    requires
        exists|i: int| 0 <= i < names.len() && same_name(#[trigger] names[i], name),
        forall|i: int|
            0 <= i < response_names().len() ==> !same_name(#[trigger] response_names()[i], name),
        !same_name(bare_headers(), name),
        forall|k: nat| !same_name(#[trigger] chunk_name(k), name),
    ensures
        lookup(composed_headers(status, reason, upstream, Some(names)), name) == lookup(
            upstream,
            name,
        ),
{
    let field = Field { name: bare_headers(), value: object_text(upstream) };
    let mapping = split_fields(seq![field]);
    assert(seq![field].drop_last() =~= Seq::<Field>::empty());
    assert(split_fields(Seq::<Field>::empty()) =~= Seq::<Field>::empty());
    assert(mapping =~= expanded(field));
    lemma_composed_lookup(status, reason, upstream, Some(names), name);
    lemma_lookup_concat(mapping, passed(upstream, Some(names)), name);
    lemma_first_named(mapping, name, 0);
    lemma_relayed_lookup(upstream, names, name);
}

/// The response that goes back to the client.
#[derive(Debug, Clone, PartialEq, Eq)]
pub struct ClientResponse {
    /// The status on the transport.
    pub status: u16,
    pub headers: Vec<Header>,
    /// The upstream body, byte for byte.
    pub body: Vec<u8>,
}

/// Composes the response to the client from the upstream status, the words
/// that go with it, the upstream headers and the upstream body; see
/// [`transport_status`] and [`composed_headers`]. The body passes through
/// untouched.
pub fn compose_response(
    status: u16,
    reason: &[u8],
    upstream: &Vec<Header>,
    body: Vec<u8>,
    pass_headers: &Option<Vec<Vec<u8>>>,
    pass_status: &Option<Vec<Vec<u8>>>,
) -> (r: ClientResponse)
    ensures
        r.status == transport_status(status, texts_of(*pass_status)),
        fields(r.headers@) == composed_headers(
            status,
            reason@,
            fields(upstream@),
            texts_of(*pass_headers),
        ),
        r.body@ == body@,
        lookup(fields(r.headers@), bare_status()) == Some(decimal(status as nat)),
        lookup(fields(r.headers@), bare_status_text()) == Some(reason@),
        lookup(fields(upstream@), content_type()) is Some ==> lookup(
            fields(r.headers@),
            content_type(),
        ) == lookup(fields(upstream@), content_type()),
{
    proof {
        reveal_strlit("x-bare-headers");
        reveal_strlit("content-type");
        reveal_strlit("x-bare-status");
        reveal_strlit("x-bare-status-text");
        lemma_composed_headers(status, reason@, fields(upstream@), texts_of(*pass_headers));
    }
    let number: Vec<u8> = decimal_text(status as usize);
    let shown: u16 = match pass_status {
        Some(list) => if contains_text(list, number.as_slice()) {
            status
        } else {
            200
        },
        None => 200,
    };
    let mut whole: Vec<Header> = Vec::new();
    whole.push(Header { name: literal("x-bare-headers"), value: write_mapping(upstream) });
    assert(fields(whole@) =~= seq![
        Field { name: bare_headers(), value: object_text(fields(upstream@)) },
    ]);
    let mut headers: Vec<Header> = split_headers(&whole);
    let ghost mapping = fields(headers@);
    match pass_headers {
        Some(names) => {
            let mut picked: Vec<Header> = pick_headers(upstream, names);
            let ghost more = fields(picked@);
            headers.append(&mut picked);
            assert(fields(headers@) =~= mapping + more);
        },
        None => {
            assert(fields(headers@) =~= mapping + Seq::<Field>::empty());
        },
    }
    let content_type_name: Vec<u8> = literal("content-type");
    let at: usize = find_header(upstream, content_type_name.as_slice());
    if at < upstream.len() {
        set_header(&mut headers, content_type_name.as_slice(), upstream[at].value.as_slice());
    }
    set_header(&mut headers, literal("x-bare-status").as_slice(), number.as_slice());
    set_header(&mut headers, literal("x-bare-status-text").as_slice(), reason);
    add_cors_headers(&mut headers);
    ClientResponse { status: shown, headers, body }
}

/// Composes the response to the client, with the words that go with the
/// upstream status looked up. A status without such words yields no
/// response, and no number below 100 or from 1000 up has any; every other
/// status yields the response of [`compose_response`] for its words.
pub fn respond(
    status: u16,
    upstream: &Vec<Header>,
    body: Vec<u8>,
    pass_headers: &Option<Vec<Vec<u8>>>,
    pass_status: &Option<Vec<Vec<u8>>>,
) -> (r: Option<ClientResponse>)
    ensures
        r is Some <==> reason_phrase(status) is Some,
        (status < 100 || status >= 1000) ==> r is None,
        r matches Some(response) ==> response.status == transport_status(
            status,
            texts_of(*pass_status),
        ) && fields(response.headers@) == composed_headers(
            status,
            reason_phrase(status)->0,
            fields(upstream@),
            texts_of(*pass_headers),
        ) && response.body@ == body@,
{
    match canonical_reason(status) {
        Some(reason) => Some(
            compose_response(status, reason.as_slice(), upstream, body, pass_headers, pass_status),
        ),
        None => None,
    }
}

} // verus!
