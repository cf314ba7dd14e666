//! Header mappings as JSON text: reading one that a client sent, and
//! writing the one that is sent back.

use crate::header::fields;
use crate::header::Field;
use crate::header::Header;
use vstd::prelude::*;

verus! {

/// The mapping that a JSON text denotes, as `serde_json::from_slice` reads
/// it into a map from strings to strings: each name and each value as its
/// UTF-8 bytes, or nothing where the text is not a JSON object of strings.
pub uninterp spec fn parsed_mapping(text: Seq<u8>) -> Option<Map<Seq<u8>, Seq<u8>>>;

/// Whether a list holds a mapping: every name of the mapping stands in the
/// list exactly once, with its value, and nothing else does. The order of
/// the list is left open.
pub open spec fn lists_mapping(list: Seq<Field>, mapping: Map<Seq<u8>, Seq<u8>>) -> bool {
    &&& forall|i: int, j: int|
        0 <= i < j < list.len() ==> (#[trigger] list[i]).name != (#[trigger] list[j]).name
    &&& forall|i: int|
        0 <= i < list.len() ==> mapping.contains_pair((#[trigger] list[i]).name, list[i].value)
    &&& forall|name: Seq<u8>| #[trigger]
        mapping.contains_key(name) ==> exists|i: int|
            0 <= i < list.len() && (#[trigger] list[i]).name == name
}

/// Calls `serde_json::from_slice` for a map from strings to strings and
/// hands its entries out as headers. Taken on trust: whether the text is
/// accepted, and the mapping it is read as, depend on the text alone; the
/// order in which the entries come out does not, and nothing is said of it.
#[verifier::external_body]
fn parse_mapping(text: &[u8]) -> (r: Option<Vec<Header>>)
    ensures
        r is Some <==> parsed_mapping(text@) is Some,
        r matches Some(list) ==> lists_mapping(fields(list@), parsed_mapping(text@).unwrap()),
{
    match serde_json::from_slice::<std::collections::HashMap<String, String>>(text) {
        Ok(mapping) => Some(
            mapping.into_iter().map(
                |(name, value)| Header { name: name.into_bytes(), value: value.into_bytes() },
            ).collect(),
        ),
        Err(_) => None,
    }
}

/// Reads a JSON object of strings. The result lists the object's entries in
/// no particular order; it is `None` where the text is no such object.
pub fn read_mapping(text: &[u8]) -> (r: Option<Vec<Header>>)
    ensures
        r is Some <==> parsed_mapping(text@) is Some,
        r matches Some(list) ==> lists_mapping(fields(list@), parsed_mapping(text@).unwrap()),
{
    parse_mapping(text)
}

/// The digit for a value below 16, in lower-case hexadecimal.
pub open spec fn hex_digit(nibble: u8) -> u8 {
    if nibble < 10 {
        (48 + nibble) as u8
    } else {
        (87 + nibble) as u8
    }
}

/// How one byte of a name or value is written inside a JSON string.
///
/// A quote and a backslash get a backslash in front. Every other byte from
/// the space to the tilde stands for itself. Any other byte `b` is written
/// as the escape `\u00XX` of the character with code `b`, so that the text
/// is plain ASCII whatever the header holds.
pub open spec fn escaped_byte(b: u8) -> Seq<u8> {
    if b == 34 || b == 92 {
        seq![92u8, b]
    } else if 32 <= b < 127 {
        seq![b]
    } else {
        seq![92u8, 117u8, 48u8, 48u8, hex_digit(b / 16), hex_digit(b % 16)]
    }
}

/// A byte string as it is written inside a JSON string.
pub open spec fn escaped(s: Seq<u8>) -> Seq<u8>
    decreases s.len(),
{
    if s.len() == 0 {
        Seq::empty()
    } else {
        escaped(s.drop_last()) + escaped_byte(s.last())
    }
}

/// A byte string as a JSON string: escaped, between quotes.
pub open spec fn quoted(s: Seq<u8>) -> Seq<u8> {
    seq![34u8] + escaped(s) + seq![34u8]
}

/// One header as a member of a JSON object: the name, a colon, the value.
pub open spec fn member(field: Field) -> Seq<u8> {
    quoted(field.name) + seq![58u8] + quoted(field.value)
}

/// The members of the headers, in their order, with commas between them.
pub open spec fn members(list: Seq<Field>) -> Seq<u8>
    decreases list.len(),
{
    if list.len() == 0 {
        Seq::empty()
    } else if list.len() == 1 {
        member(list[0])
    } else {
        members(list.drop_last()) + seq![44u8] + member(list.last())
    }
}

/// A header list as the text of a JSON object: one member for each header,
/// in the list's order and with the names as they are.
pub open spec fn object_text(list: Seq<Field>) -> Seq<u8> {
    seq![123u8] + members(list) + seq![125u8]
}

/// Every byte of an [`object_text`] is a visible ASCII character.
pub open spec fn is_visible(s: Seq<u8>) -> bool {
    forall|i: int| 0 <= i < s.len() ==> 32 <= #[trigger] s[i] < 127
}

fn hex_digit_byte(nibble: u8) -> (r: u8)
    requires
        nibble < 16,
    ensures
        r == hex_digit(nibble),
        32 <= r < 127,
{
    if nibble < 10 {
        48 + nibble
    } else {
        87 + nibble
    }
}

/// Appends [`escaped`] of `s` to `out`.
fn push_escaped(out: &mut Vec<u8>, s: &[u8])
    requires
        is_visible(old(out)@),
    ensures
        final(out)@ == old(out)@ + escaped(s@),
        is_visible(final(out)@),
{
    let ghost before = out@;
    let mut i: usize = 0;
    assert(escaped(s@.take(0)) =~= Seq::<u8>::empty());
    while i < s.len()
        invariant
            i <= s.len(),
            out@ == before + escaped(s@.take(i as int)),
            is_visible(out@),
        decreases s.len() - i,
    {
        let b: u8 = s[i];
        let ghost so_far = out@;
        if b == 34 || b == 92 {
            out.push(92);
            out.push(b);
        } else if 32 <= b && b < 127 {
            out.push(b);
        } else {
            out.push(92);
            out.push(117);
            out.push(48);
            out.push(48);
            out.push(hex_digit_byte(b / 16));
            out.push(hex_digit_byte(b % 16));
        }
        i += 1;
        proof {
            assert(out@ =~= so_far + escaped_byte(b));
            assert(s@.take(i as int).drop_last() =~= s@.take(i - 1));
        }
    }
    assert(s@.take(s.len() as int) =~= s@);
}

/// Appends [`quoted`] of `s` to `out`.
fn push_quoted(out: &mut Vec<u8>, s: &[u8])
    requires
        is_visible(old(out)@),
    ensures
        final(out)@ == old(out)@ + quoted(s@),
        is_visible(final(out)@),
{
    let ghost before = out@;
    out.push(34);
    push_escaped(out, s);
    out.push(34);
    assert(out@ =~= before + quoted(s@));
}

/// Writes a header list as the text of a JSON object; see [`object_text`].
pub fn write_mapping(list: &Vec<Header>) -> (r: Vec<u8>)
    ensures
        r@ == object_text(fields(list@)),
        is_visible(r@),
{
    let mut out: Vec<u8> = Vec::new();
    out.push(123);
    let mut i: usize = 0;
    assert(members(fields(list@).take(0)) =~= Seq::<u8>::empty());
    while i < list.len()
        invariant
            i <= list.len(),
            out@ == seq![123u8] + members(fields(list@).take(i as int)),
            is_visible(out@),
        decreases list.len() - i,
    {
        let ghost so_far = out@;
        if i > 0 {
            out.push(44);
        }
        push_quoted(&mut out, list[i].name.as_slice());
        out.push(58);
        push_quoted(&mut out, list[i].value.as_slice());
        i += 1;
        proof {
            let now = fields(list@).take(i as int);
            assert(now.drop_last() =~= fields(list@).take(i - 1));
            assert(now.last() == list@[i - 1]@);
            if i == 1 {
                assert(out@ =~= so_far + member(now[0]));
            } else {
                assert(out@ =~= so_far + seq![44u8] + member(now.last()));
            }
        }
    }
    assert(fields(list@).take(list.len() as int) =~= fields(list@));
    let ghost body = out@;
    out.push(125);
    assert(out@ =~= body + seq![125u8]);
    out
}

} // verus!
