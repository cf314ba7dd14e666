//! Splitting an oversized header mapping into chunk headers and joining the
//! chunks again.
//!
//! Some transports cap the length of one header value. A value of the main
//! header that is longer than [`MAX_HEADER_VALUE`] bytes is therefore sent as
//! consecutive slices of at most that many bytes, each in a header of its
//! own whose name ends in the slice's index and whose value starts with a
//! semicolon.

use crate::error::Error;
use crate::error::ErrorKind;
use crate::error::ErrorWithContext;
use crate::header::fields;
use crate::header::find_header;
use crate::header::first_named;
use crate::header::has_header;
use crate::header::lemma_first_named;
use crate::header::lemma_lookup_concat;
use crate::header::lookup;
use crate::header::Field;
use crate::header::Header;
use crate::names::bare_headers;
use crate::names::chunk_name;
use crate::names::chunk_name_bytes;
use crate::names::lemma_chunk_names;
use crate::names::CHUNK_MARKER;
use crate::text::copy_bytes;
use crate::text::literal;
use crate::text::names_match;
use crate::text::same_name;
use vstd::prelude::*;
use vstd::set_lib::lemma_int_range;
use vstd::set_lib::lemma_len_subset;
use vstd::set_lib::lemma_map_size;
use vstd::set_lib::set_int_range;
use vstd::slice::slice_subrange;

verus! {

/// The largest header value, in bytes, that is sent in one piece.
pub const MAX_HEADER_VALUE: usize = 3072;

/// The number of chunks that a value of `len` bytes is sent in.
pub open spec fn chunk_count(len: nat) -> nat {
    ((len + MAX_HEADER_VALUE - 1) / (MAX_HEADER_VALUE as int)) as nat
}

/// The slice of `value` that the chunk with the given index carries.
pub open spec fn chunk(value: Seq<u8>, index: int) -> Seq<u8> {
    let start = index * MAX_HEADER_VALUE;
    let end = if start + MAX_HEADER_VALUE < value.len() {
        start + MAX_HEADER_VALUE
    } else {
        value.len() as int
    };
    value.subrange(start, end)
}

/// The chunk header with the given index: its name ends in the index, its
/// value is the marker followed by the slice.
pub open spec fn chunk_field(value: Seq<u8>, index: int) -> Field {
    Field { name: chunk_name(index as nat), value: seq![CHUNK_MARKER] + chunk(value, index) }
}

/// The chunk headers of a value, in ascending order of their indices.
pub open spec fn chunked(value: Seq<u8>) -> Seq<Field> {
    Seq::new(chunk_count(value.len()), |i: int| chunk_field(value, i))
}

/// Every chunk carries at least one byte of the value and at most
/// [`MAX_HEADER_VALUE`]; every chunk but the last is full. A chunk header's
/// value is one byte longer than what it carries.
pub proof fn lemma_chunk_sizes(value: Seq<u8>, index: int)
    requires
        0 <= index < chunk_count(value.len()),
    ensures
        1 <= chunk(value, index).len() <= MAX_HEADER_VALUE,
        index + 1 < chunk_count(value.len()) ==> chunk(value, index).len() == MAX_HEADER_VALUE,
        chunked(value)[index].value.len() == chunk(value, index).len() + 1,
{
}

/// Whether a header is sent in chunks: it is the main header and its value
/// is longer than one piece may be.
pub open spec fn needs_chunks(field: Field) -> bool {
    same_name(field.name, bare_headers()) && field.value.len() > MAX_HEADER_VALUE
}

/// What one header becomes on the wire: its chunks if it needs them, else
/// itself.
pub open spec fn expanded(field: Field) -> Seq<Field> {
    if needs_chunks(field) {
        chunked(field.value)
    } else {
        seq![field]
    }
}

/// A header list as it goes on the wire: each header expanded in place.
pub open spec fn split_fields(list: Seq<Field>) -> Seq<Field>
    decreases list.len(),
{
    if list.len() == 0 {
        Seq::empty()
    } else {
        split_fields(list.drop_last()) + expanded(list.last())
    }
}

/// Appends the chunk headers of `value` to `out`.
fn push_chunks(out: &mut Vec<Header>, value: &[u8])
    ensures
        fields(final(out)@) == fields(old(out)@) + chunked(value@),
{
    let ghost before = fields(out@);
    let mut index: usize = 0;
    let mut start: usize = 0;
    while start < value.len()
        invariant
            start <= value.len(),
            start == if index * MAX_HEADER_VALUE < value.len() {
                index * MAX_HEADER_VALUE
            } else {
                value.len() as int
            },
            index <= chunk_count(value@.len()),
            start == value.len() ==> index == chunk_count(value@.len()),
            fields(out@) == before + chunked(value@).take(index as int),
        decreases value.len() - start,
    {
        let end: usize = if value.len() - start > MAX_HEADER_VALUE {
            start + MAX_HEADER_VALUE
        } else {
            value.len()
        };
        let mut piece: Vec<u8> = Vec::new();
        piece.push(CHUNK_MARKER);
        let mut slice: Vec<u8> = copy_bytes(slice_subrange(value, start, end));
        piece.append(&mut slice);
        let name: Vec<u8> = chunk_name_bytes(index);
        let ghost so_far = fields(out@);
        out.push(Header { name, value: piece });
        proof {
            assert(piece@ =~= seq![CHUNK_MARKER] + chunk(value@, index as int));
            assert(fields(out@) =~= so_far.push(chunk_field(value@, index as int)));
            assert(chunked(value@).take(index + 1) =~= chunked(value@).take(index as int).push(
                chunk_field(value@, index as int),
            ));
        }
        index += 1;
        start = end;
    }
    proof {
        assert(chunked(value@).take(index as int) =~= chunked(value@));
    }
}

/// The chunk headers of a value: see [`chunked`].
pub fn chunk_headers_of(value: &[u8]) -> (r: Vec<Header>)
    ensures
        fields(r@) == chunked(value@),
{
    let mut out: Vec<Header> = Vec::new();
    push_chunks(&mut out, value);
    assert(fields(out@) =~= chunked(value@));
    out
}

/// Splits the main header where its value is too long for one piece.
///
/// Only a header named `x-bare-headers` (in any casing) is touched: if its
/// value is longer than [`MAX_HEADER_VALUE`] bytes, it is replaced, in
/// place, by the headers `X-BARE-HEADERS-0`, `X-BARE-HEADERS-1`, ..., each
/// carrying a semicolon and the next slice of at most [`MAX_HEADER_VALUE`]
/// bytes. All other headers pass through unchanged, in their order and as
/// often as they occur.
pub fn split_headers(headers: &Vec<Header>) -> (r: Vec<Header>)
    ensures
        fields(r@) == split_fields(fields(headers@)),
{
    proof {
        reveal_strlit("x-bare-headers");
    }
    let main: Vec<u8> = literal("x-bare-headers");
    let mut out: Vec<Header> = Vec::new();
    let mut i: usize = 0;
    while i < headers.len()
        invariant
            i <= headers.len(),
            main@ == bare_headers(),
            fields(out@) == split_fields(fields(headers@).take(i as int)),
        decreases headers.len() - i,
    {
        let header: &Header = &headers[i];
        let ghost so_far = fields(out@);
        if names_match(header.name.as_slice(), main.as_slice()) && header.value.len()
            > MAX_HEADER_VALUE {
            push_chunks(&mut out, header.value.as_slice());
        } else {
            out.push(header.copy());
            assert(fields(out@) =~= so_far + seq![header@]);
        }
        i += 1;
        proof {
            let now = fields(headers@).take(i as int);
            assert(now.drop_last() =~= fields(headers@).take(i - 1));
            assert(now.last() == header@);
        }
    }
    assert(fields(headers@).take(headers.len() as int) =~= fields(headers@));
    out
}

/// The number of chunk headers that are read: the indices are tried in
/// ascending order from `from`, and the first one without a header ends
/// the run. A list of `n` headers holds at most `n` chunks, so the search
/// need not go past index `n`; see [`lemma_chunk_run`].
pub open spec fn chunk_run(list: Seq<Field>, from: nat) -> nat
    decreases list.len() - from,
{
    if from >= list.len() || !has_header(list, chunk_name(from)) {
        from
    } else {
        chunk_run(list, from + 1)
    }
}

/// A run of chunks that starts at `from` goes forward and stays within the
/// list; every index that it passes has a chunk header, and where it ends
/// before the list does, the index at its end has none.
pub proof fn lemma_chunk_run_from(list: Seq<Field>, from: nat)
    ensures
        from <= chunk_run(list, from),
        chunk_run(list, from) <= list.len() || chunk_run(list, from) == from,
        forall|i: nat| from <= i < chunk_run(list, from) ==> has_header(list, chunk_name(i)),
        chunk_run(list, from) < list.len() ==> !has_header(
            list,
            chunk_name(chunk_run(list, from)),
        ),
    decreases list.len() - from,
{
    if from < list.len() && has_header(list, chunk_name(from)) {
        lemma_chunk_run_from(list, from + 1);
    }
}

/// The run of chunks ends at the first index without a chunk header: every
/// index below its end has one, and the index at its end has none. A list
/// cannot hold more chunks than it has headers, so no run is cut short by
/// the end of the list.
pub proof fn lemma_chunk_run(list: Seq<Field>)
    ensures
        chunk_run(list, 0) <= list.len(),
        forall|i: nat| i < chunk_run(list, 0) ==> has_header(list, chunk_name(i)),
        !has_header(list, chunk_name(chunk_run(list, 0))),
{
    lemma_chunk_run_from(list, 0);
    let n = list.len() as int;
    if chunk_run(list, 0) == n && has_header(list, chunk_name(n as nat)) {
        let place = |k: int| first_named(list, chunk_name(k as nat), 0);
        let indices = set_int_range(0, n + 1);
        let places = indices.map(place);
        lemma_int_range(0, n + 1);
        lemma_int_range(0, n);
        assert forall|k: int| indices.contains(k) implies 0 <= #[trigger] place(k) < n by {
            assert(has_header(list, chunk_name(k as nat)));
            lemma_first_named(list, chunk_name(k as nat), 0);
        }
        assert forall|j: int, k: int|
            indices.contains(j) && indices.contains(k) && #[trigger] place(j) == #[trigger] place(
                k,
            ) implies j == k by {
            assert(0 <= place(j) < n);
            lemma_first_named(list, chunk_name(j as nat), 0);
            lemma_first_named(list, chunk_name(k as nat), 0);
            lemma_chunk_names(j as nat, k as nat);
        }
        lemma_map_size(indices, places, place);
        assert forall|at: int| places.contains(at) implies set_int_range(0, n).contains(
            at,
        ) by {
            let k = choose|k: int| indices.contains(k) && place(k) == at;
            assert(0 <= place(k) < n);
        }
        lemma_len_subset(places, set_int_range(0, n));
    }
}

/// Whether the chunks below `count` all have an empty value: headers were
/// sent, and not one byte in them.
pub open spec fn all_empty(list: Seq<Field>, count: nat) -> bool
    decreases count,
{
    count == 0 || (all_empty(list, (count - 1) as nat) && lookup(
        list,
        chunk_name((count - 1) as nat),
    ).unwrap().len() == 0)
}

/// Whether a chunk's value starts with the marker.
pub open spec fn is_marked(value: Seq<u8>) -> bool {
    value.len() >= 1 && value[0] == CHUNK_MARKER
}

/// Whether the chunks below `count` all start with the marker.
pub open spec fn all_marked(list: Seq<Field>, count: nat) -> bool
    decreases count,
{
    count == 0 || (all_marked(list, (count - 1) as nat) && is_marked(
        lookup(list, chunk_name((count - 1) as nat)).unwrap(),
    ))
}

/// What a chunk's value carries: everything after its first byte.
pub open spec fn payload(value: Seq<u8>) -> Seq<u8> {
    if value.len() >= 1 {
        value.subrange(1, value.len() as int)
    } else {
        Seq::empty()
    }
}

/// The payloads of the chunks below `count`, one after the other.
pub open spec fn joined_chunks(list: Seq<Field>, count: nat) -> Seq<u8>
    decreases count,
{
    if count == 0 {
        Seq::empty()
    } else {
        joined_chunks(list, (count - 1) as nat) + payload(
            lookup(list, chunk_name((count - 1) as nat)).unwrap(),
        )
    }
}

/// The text of the header mapping that a request carries.
///
/// The value of the main header, if there is one. Else the chunks are
/// joined. Chunks whose values are all empty count as a mapping that was not
/// sent; so do chunks that carry nothing after their markers. A chunk
/// without the marker among chunks that hold something makes the mapping
/// unreadable. Without any chunk the text is empty.
pub open spec fn joined(list: Seq<Field>) -> Result<Seq<u8>, ErrorKind> {
    let count = chunk_run(list, 0);
    if has_header(list, bare_headers()) {
        Ok(lookup(list, bare_headers()).unwrap())
    } else if count > 0 && all_empty(list, count) {
        Err(ErrorKind::MissingBareHeader("X-BARE-HEADERS"@))
    } else if !all_marked(list, count) {
        Err(ErrorKind::InvalidBareHeader("x-bare-headers"@))
    } else if count > 0 && joined_chunks(list, count).len() == 0 {
        Err(ErrorKind::MissingBareHeader("X-BARE-HEADERS"@))
    } else {
        Ok(joined_chunks(list, count))
    }
}

/// Whether a request carries a header mapping at all: as the main header or
/// as a first chunk.
pub open spec fn sends_mapping(list: Seq<Field>) -> bool {
    has_header(list, bare_headers()) || chunk_run(list, 0) > 0
}

/// Joins the header mapping of a request into one text; see [`joined`].
///
/// Every error comes with the context `While joining headers`.
pub fn join_bare_headers(headers: &Vec<Header>) -> (r: Result<Vec<u8>, ErrorWithContext>)
    ensures
        match r {
            Ok(text) => joined(fields(headers@)) == Ok::<Seq<u8>, ErrorKind>(text@),
            Err(e) => joined(fields(headers@)) == Err::<Seq<u8>, ErrorKind>(e.error@)
                && e.context@ == "While joining headers"@,
        },
{
    proof {
        reveal_strlit("x-bare-headers");
    }
    let main: Vec<u8> = literal("x-bare-headers");
    let at: usize = find_header(headers, main.as_slice());
    if at < headers.len() {
        return Ok(copy_bytes(headers[at].value.as_slice()));
    }
    let ghost list = fields(headers@);
    let mut text: Vec<u8> = Vec::new();
    let mut count: usize = 0;
    let mut unmarked: bool = false;
    let mut empty: bool = true;
    while count < headers.len()
        invariant
            list == fields(headers@),
            count <= headers.len(),
            chunk_run(list, 0) == chunk_run(list, count as nat),
            unmarked == !all_marked(list, count as nat),
            empty == all_empty(list, count as nat),
            text@ == joined_chunks(list, count as nat),
        ensures
            chunk_run(list, 0) == count,
        decreases headers.len() - count,
    {
        let name: Vec<u8> = chunk_name_bytes(count);
        let found: usize = find_header(headers, name.as_slice());
        if found >= headers.len() {
            break ;
        }
        let value: &Vec<u8> = &headers[found].value;
        if value.len() == 0 || value[0] != CHUNK_MARKER {
            unmarked = true;
        }
        if value.len() > 0 {
            empty = false;
            let mut rest: Vec<u8> = copy_bytes(slice_subrange(value.as_slice(), 1, value.len()));
            text.append(&mut rest);
        }
        count += 1;
    }
    if count > 0 && empty {
        return Err(
            ErrorWithContext::new(
                Error::MissingBareHeader("X-BARE-HEADERS".to_owned()),
                "While joining headers",
            ),
        );
    }
    if unmarked {
        return Err(
            ErrorWithContext::new(
                Error::InvalidBareHeader("x-bare-headers".to_owned()),
                "While joining headers",
            ),
        );
    }
    if count > 0 && text.len() == 0 {
        return Err(
            ErrorWithContext::new(
                Error::MissingBareHeader("X-BARE-HEADERS".to_owned()),
                "While joining headers",
            ),
        );
    }
    Ok(text)
}

/// In the chunk headers of a value, the chunk with index `i` is the first
/// header of its name, and no header has the name of the main header.
proof fn lemma_chunked_lookup(value: Seq<u8>, i: nat)
    ensures
        !has_header(chunked(value), bare_headers()),
        i < chunk_count(value.len()) ==> first_named(chunked(value), chunk_name(i), 0) == i,
        i >= chunk_count(value.len()) ==> !has_header(chunked(value), chunk_name(i)),
{
    let list = chunked(value);
    lemma_first_named(list, bare_headers(), 0);
    lemma_first_named(list, chunk_name(i), 0);
    let main = first_named(list, bare_headers(), 0);
    if main < list.len() {
        lemma_chunk_names(main as nat, 0);
    }
    let at = first_named(list, chunk_name(i), 0);
    if at < list.len() {
        lemma_chunk_names(at as nat, i);
    } else if i < list.len() {
        lemma_chunk_names(i, i);
        assert(!same_name(list[i as int].name, chunk_name(i)));
    }
}

/// The first `count` chunk headers of a value are all marked, so none of
/// them is empty, and their payloads make up the value's first bytes.
proof fn lemma_chunked_joined(value: Seq<u8>, count: nat)
    requires
        count <= chunk_count(value.len()),
    ensures
        all_marked(chunked(value), count),
        count > 0 ==> !all_empty(chunked(value), count),
        joined_chunks(chunked(value), count) == value.subrange(
            0,
            if count * MAX_HEADER_VALUE < value.len() {
                count * MAX_HEADER_VALUE
            } else {
                value.len() as int
            },
        ),
    decreases count,
{
    let list = chunked(value);
    if count == 0 {
        assert(joined_chunks(list, count) =~= value.subrange(0, 0));
    } else {
        let last = (count - 1) as nat;
        lemma_chunked_joined(value, last);
        lemma_chunked_lookup(value, last);
        let sent = lookup(list, chunk_name(last)).unwrap();
        assert(sent == seq![CHUNK_MARKER] + chunk(value, last as int));
        assert(payload(sent) =~= chunk(value, last as int));
        assert(joined_chunks(list, count) =~= value.subrange(
            0,
            if count * MAX_HEADER_VALUE < value.len() {
                count * MAX_HEADER_VALUE
            } else {
                value.len() as int
            },
        ));
    }
}

/// Splitting works header by header: a list put after another is split as
/// the two are.
proof fn lemma_split_concat(a: Seq<Field>, b: Seq<Field>)
    ensures
        split_fields(a + b) == split_fields(a) + split_fields(b),
    decreases b.len(),
{
    if b.len() == 0 {
        assert(a + b =~= a);
        assert(split_fields(a) + split_fields(b) =~= split_fields(a));
    } else {
        lemma_split_concat(a, b.drop_last());
        assert((a + b).drop_last() =~= a + b.drop_last());
        assert(split_fields(a + b) =~= split_fields(a) + split_fields(b));
    }
}

/// Whether a list carries no part of a header mapping: none of its headers
/// has the name of the main header or of a chunk.
pub open spec fn carries_no_mapping(list: Seq<Field>) -> bool {
    &&& forall|i: int| 0 <= i < list.len() ==> !same_name((#[trigger] list[i]).name, bare_headers())
    &&& forall|i: int, k: nat|
        0 <= i < list.len() ==> !same_name((#[trigger] list[i]).name, #[trigger] chunk_name(k))
}

/// A list that carries no part of a mapping goes on the wire as it is.
proof fn lemma_plain_split(list: Seq<Field>)
    requires
        carries_no_mapping(list),
    ensures
        split_fields(list) == list,
    decreases list.len(),
{
    if list.len() > 0 {
        let front = list.drop_last();
        assert forall|i: int, k: nat| 0 <= i < front.len() implies !same_name(
            (#[trigger] front[i]).name,
            #[trigger] chunk_name(k),
        ) by {
            assert(front[i] == list[i]);
        }
        assert forall|i: int| 0 <= i < front.len() implies !same_name(
            (#[trigger] front[i]).name,
            bare_headers(),
        ) by {
            assert(front[i] == list[i]);
        }
        lemma_plain_split(front);
        assert(!needs_chunks(list.last()));
        assert(split_fields(list) =~= list);
    } else {
        assert(split_fields(list) =~= list);
    }
}

/// A list that carries no part of a mapping has neither the main header nor
/// the chunk of any index.
proof fn lemma_plain_lookup(list: Seq<Field>, k: nat)
    requires
        carries_no_mapping(list),
    ensures
        !has_header(list, bare_headers()),
        !has_header(list, chunk_name(k)),
{
    lemma_first_named(list, bare_headers(), 0);
    lemma_first_named(list, chunk_name(k), 0);
}

/// Two lists that hold the same chunks below `count` join to the same text.
proof fn lemma_same_chunks(a: Seq<Field>, b: Seq<Field>, count: nat)
    requires
        forall|i: nat| i < count ==> lookup(a, #[trigger] chunk_name(i)) == lookup(b, chunk_name(i)),
    ensures
        all_marked(a, count) == all_marked(b, count),
        all_empty(a, count) == all_empty(b, count),
        joined_chunks(a, count) == joined_chunks(b, count),
    decreases count,
{
    if count > 0 {
        lemma_same_chunks(a, b, (count - 1) as nat);
        assert(lookup(a, chunk_name((count - 1) as nat)) == lookup(
            b,
            chunk_name((count - 1) as nat),
        ));
    }
}

/// Headers that carry no part of a mapping, put before and after a list,
/// leave the lookup of the main header and of every chunk as it is in the
/// list.
proof fn lemma_plain_around(before: Seq<Field>, middle: Seq<Field>, after: Seq<Field>)
    requires
        carries_no_mapping(before),
        carries_no_mapping(after),
    ensures
        has_header(before + middle + after, bare_headers()) == has_header(middle, bare_headers()),
        lookup(before + middle + after, bare_headers()) == lookup(middle, bare_headers()),
        forall|k: nat|
            has_header(before + middle + after, #[trigger] chunk_name(k)) == has_header(
                middle,
                chunk_name(k),
            ),
        forall|k: nat|
            lookup(before + middle + after, #[trigger] chunk_name(k)) == lookup(
                middle,
                chunk_name(k),
            ),
{
    assert forall|k: nat|
        has_header(before + middle + after, #[trigger] chunk_name(k)) == has_header(
            middle,
            chunk_name(k),
        ) && lookup(before + middle + after, chunk_name(k)) == lookup(middle, chunk_name(k)) by {
        lemma_plain_lookup(before, k);
        lemma_plain_lookup(after, k);
        lemma_lookup_concat(before, middle, chunk_name(k));
        lemma_lookup_concat(before + middle, after, chunk_name(k));
    }
    lemma_plain_lookup(before, 0);
    lemma_plain_lookup(after, 0);
    lemma_lookup_concat(before, middle, bare_headers());
    lemma_lookup_concat(before + middle, after, bare_headers());
}

/// A list without the main header that holds the chunks of a value, and no
/// other chunk, joins to the value.
proof fn lemma_join_chunked(sent: Seq<Field>, value: Seq<u8>)
    requires
        value.len() > 0,
        !has_header(sent, bare_headers()),
        forall|k: nat|
            has_header(sent, #[trigger] chunk_name(k)) == has_header(
                chunked(value),
                chunk_name(k),
            ),
        forall|k: nat|
            lookup(sent, #[trigger] chunk_name(k)) == lookup(chunked(value), chunk_name(k)),
    ensures
        joined(sent) == Ok::<Seq<u8>, ErrorKind>(value),
        chunk_run(sent, 0) > 0,
{
    let count = chunk_count(value.len());
    let run = chunk_run(sent, 0);
    lemma_chunk_run(sent);
    assert(run == count) by {
        if run < count {
            lemma_chunked_lookup(value, run);
            assert(has_header(chunked(value), chunk_name(run)));
        }
        if run > count {
            lemma_chunked_lookup(value, count);
            assert(has_header(sent, chunk_name(count)));
        }
    }
    lemma_chunked_joined(value, count);
    lemma_same_chunks(sent, chunked(value), count);
    assert(value.subrange(0, value.len() as int) =~= value);
}

/// A list in which the main header and every chunk are looked up as they
/// are in what one main header is split into joins to that header's value,
/// whatever else the list holds.
pub proof fn lemma_join_like_split(sent: Seq<Field>, name: Seq<u8>, value: Seq<u8>)
    requires
        same_name(name, bare_headers()),
        lookup(sent, bare_headers()) == lookup(expanded(Field { name, value }), bare_headers()),
        forall|k: nat|
            lookup(sent, #[trigger] chunk_name(k)) == lookup(
                expanded(Field { name, value }),
                chunk_name(k),
            ),
    ensures
        joined(sent) == Ok::<Seq<u8>, ErrorKind>(value),
        sends_mapping(sent),
{
    let field = Field { name, value };
    let middle = expanded(field);
    if needs_chunks(field) {
        lemma_chunked_lookup(value, 0);
        assert forall|k: nat|
            has_header(sent, #[trigger] chunk_name(k)) == has_header(middle, chunk_name(k)) by {
            assert(lookup(sent, chunk_name(k)) == lookup(middle, chunk_name(k)));
        }
        lemma_join_chunked(sent, value);
    } else {
        assert(first_named(middle, bare_headers(), 0) == 0);
    }
}

/// Splitting and joining give a value back byte for byte.
///
/// The main header, under any casing of its name and with a value of any
/// length, stands among headers that carry no part of a mapping. The list
/// is split for the wire; joining what was sent yields the value, as
/// joining the list itself does.
pub proof fn lemma_split_then_join(
    before: Seq<Field>,
    name: Seq<u8>,
    value: Seq<u8>,
    after: Seq<Field>,
)
    requires
        same_name(name, bare_headers()),
        carries_no_mapping(before),
        carries_no_mapping(after),
    ensures
        joined(split_fields(before + seq![Field { name, value }] + after)) == Ok::<
            Seq<u8>,
            ErrorKind,
        >(value),
        joined(before + seq![Field { name, value }] + after) == Ok::<Seq<u8>, ErrorKind>(value),
        sends_mapping(split_fields(before + seq![Field { name, value }] + after)),
        sends_mapping(before + seq![Field { name, value }] + after),
{
    let field = Field { name, value };
    let middle = expanded(field);
    let sent = before + middle + after;
    assert(split_fields(before + seq![field] + after) == sent) by {
        assert(seq![field].drop_last() =~= Seq::<Field>::empty());
        assert(split_fields(Seq::<Field>::empty()) =~= Seq::<Field>::empty());
        assert(split_fields(seq![field]) =~= middle);
        lemma_split_concat(before + seq![field], after);
        lemma_split_concat(before, seq![field]);
        lemma_plain_split(before);
        lemma_plain_split(after);
    }
    lemma_plain_around(before, middle, after);
    lemma_join_like_split(sent, name, value);
    lemma_plain_around(before, seq![field], after);
    assert(first_named(seq![field], bare_headers(), 0) == 0);
}

} // verus!
