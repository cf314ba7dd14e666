//! Headers as ordered lists of name and value bytes.
//!
//! A list keeps every header in the order it was given, with the name's
//! casing untouched and a repeated name kept as often as it occurs. Names
//! are compared without regard to ASCII case.

use crate::text::copy_bytes;
use crate::text::names_match;
use crate::text::same_name;
use vstd::prelude::*;

verus! {

/// One header: a name and a value, both as bytes.
#[derive(Debug, Clone, PartialEq, Eq)]
pub struct Header {
    pub name: Vec<u8>,
    pub value: Vec<u8>,
}

/// What a [`Header`] holds.
pub struct Field {
    pub name: Seq<u8>,
    pub value: Seq<u8>,
}

impl View for Header {
    type V = Field;

    open spec fn view(&self) -> Field {
        Field { name: self.name@, value: self.value@ }
    }
}

/// What a list of headers holds, in order.
pub open spec fn fields(list: Seq<Header>) -> Seq<Field> {
    Seq::new(list.len(), |i: int| list[i]@)
}

impl Header {
    /// A header with copies of the given name and value.
    pub fn new(name: &[u8], value: &[u8]) -> (r: Header)
        ensures
            r@ == (Field { name: name@, value: value@ }),
    {
        Header { name: copy_bytes(name), value: copy_bytes(value) }
    }

    /// A copy of this header.
    pub fn copy(&self) -> (r: Header)
        ensures
            r@ == self@,
    {
        Header { name: copy_bytes(self.name.as_slice()), value: copy_bytes(self.value.as_slice()) }
    }

    /// Whether both the name and the value are well formed.
    pub fn is_valid(&self) -> (r: bool)
        ensures
            r == is_valid_field(self@),
    {
        parses_as_name(self.name.as_slice()) && parses_as_value(self.value.as_slice())
    }
}

/// A copy of a header list.
pub fn copy_headers(list: &Vec<Header>) -> (r: Vec<Header>)
    ensures
        fields(r@) == fields(list@),
{
    let mut out: Vec<Header> = Vec::new();
    let mut i: usize = 0;
    while i < list.len()
        invariant
            i <= list.len(),
            fields(out@) == fields(list@).take(i as int),
        decreases list.len() - i,
    {
        let ghost before = fields(out@);
        out.push(list[i].copy());
        i += 1;
        assert(fields(out@) =~= before.push(list@[i - 1]@));
        assert(fields(out@) =~= fields(list@).take(i as int));
    }
    assert(fields(list@).take(list.len() as int) =~= fields(list@));
    out
}

/// The position of the first header at or after `from` whose name matches
/// `name`, or the length of the list if there is none.
pub open spec fn first_named(list: Seq<Field>, name: Seq<u8>, from: int) -> int
    decreases list.len() - from,
{
    if from >= list.len() {
        list.len() as int
    } else if 0 <= from && same_name(list[from].name, name) {
        from
    } else {
        first_named(list, name, from + 1)
    }
}

/// Whether the list has a header whose name matches `name`.
pub open spec fn has_header(list: Seq<Field>, name: Seq<u8>) -> bool {
    first_named(list, name, 0) < list.len()
}

/// The value of the first header whose name matches `name`.
pub open spec fn lookup(list: Seq<Field>, name: Seq<u8>) -> Option<Seq<u8>> {
    if has_header(list, name) {
        Some(list[first_named(list, name, 0)].value)
    } else {
        None
    }
}

/// [`first_named`] finds a header with a matching name, and none stands
/// before it.
pub proof fn lemma_first_named(list: Seq<Field>, name: Seq<u8>, from: int)
    requires
        0 <= from <= list.len(),
    ensures
        from <= first_named(list, name, from) <= list.len(),
        first_named(list, name, from) < list.len() ==> same_name(
            list[first_named(list, name, from)].name,
            name,
        ),
        forall|j: int|
            from <= j < first_named(list, name, from) ==> !same_name(
                (#[trigger] list[j]).name,
                name,
            ),
    decreases list.len() - from,
{
    if from < list.len() && !same_name(list[from].name, name) {
        lemma_first_named(list, name, from + 1);
    }
}

/// Computes [`first_named`] from the start of the list.
pub fn find_header(list: &Vec<Header>, name: &[u8]) -> (r: usize)
    ensures
        r == first_named(fields(list@), name@, 0),
        r <= list.len(),
{
    let mut i: usize = 0;
    while i < list.len()
        invariant
            i <= list.len(),
            first_named(fields(list@), name@, 0) == first_named(fields(list@), name@, i as int),
        decreases list.len() - i,
    {
        if names_match(list[i].name.as_slice(), name) {
            return i;
        }
        i += 1;
    }
    i
}

/// Computes [`lookup`]: a copy of the value of the first header whose name
/// matches `name`.
pub fn get_header(list: &Vec<Header>, name: &[u8]) -> (r: Option<Vec<u8>>)
    ensures
        match r {
            Some(value) => lookup(fields(list@), name@) == Some(value@),
            None => lookup(fields(list@), name@) is None,
        },
{
    let at: usize = find_header(list, name);
    if at < list.len() {
        Some(copy_bytes(list[at].value.as_slice()))
    } else {
        None
    }
}

/// The list without the headers whose name matches `name`; the others keep
/// their order.
pub open spec fn without(list: Seq<Field>, name: Seq<u8>) -> Seq<Field>
    decreases list.len(),
{
    if list.len() == 0 {
        Seq::empty()
    } else if same_name(list.last().name, name) {
        without(list.drop_last(), name)
    } else {
        without(list.drop_last(), name).push(list.last())
    }
}

/// Nothing in [`without`] matches the removed name, and every header with
/// another name is still there.
pub proof fn lemma_without(list: Seq<Field>, name: Seq<u8>)
    ensures
        forall|i: int|
            0 <= i < without(list, name).len() ==> !same_name(
                (#[trigger] without(list, name)[i]).name,
                name,
            ),
        !has_header(without(list, name), name),
        forall|i: int|
            0 <= i < list.len() && !same_name(list[i].name, name) ==> without(
                list,
                name,
            ).contains(#[trigger] list[i]),
        forall|i: int|
            0 <= i < without(list, name).len() ==> list.contains(
                #[trigger] without(list, name)[i],
            ),
    decreases list.len(),
{
    let kept = without(list, name);
    if list.len() > 0 {
        let front = list.drop_last();
        lemma_without(front, name);
        let before = without(front, name);
        assert forall|i: int| 0 <= i < list.len() && !same_name(list[i].name, name) implies kept.contains(
            #[trigger] list[i],
        ) by {
            if i < list.len() - 1 {
                assert(list[i] == front[i]);
                assert(before.contains(front[i]));
                let k = choose|k: int| 0 <= k < before.len() && before[k] == front[i];
                assert(kept[k] == list[i]);
            } else {
                assert(kept[kept.len() - 1] == list[i]);
            }
        }
        assert forall|i: int| 0 <= i < kept.len() implies list.contains(#[trigger] kept[i]) by {
            if i < before.len() {
                assert(front.contains(before[i]));
                let k = choose|k: int| 0 <= k < front.len() && front[k] == before[i];
                assert(list[k] == kept[i]);
            } else {
                assert(list[list.len() - 1] == kept[i]);
            }
        }
    }
    lemma_first_named(kept, name, 0);
}

/// Removes every header whose name matches `name`.
pub fn remove_header(list: &mut Vec<Header>, name: &[u8])
    ensures
        fields(final(list)@) == without(fields(old(list)@), name@),
{
    let mut kept: Vec<Header> = Vec::new();
    let mut i: usize = 0;
    while i < list.len()
        invariant
            i <= list.len(),
            *list == *old(list),
            fields(kept@) == without(fields(list@).take(i as int), name@),
        decreases list.len() - i,
    {
        let ghost before = fields(list@).take(i as int);
        if !names_match(list[i].name.as_slice(), name) {
            kept.push(list[i].copy());
        }
        i += 1;
        proof {
            let now = fields(list@).take(i as int);
            assert(now.drop_last() =~= before);
            assert(fields(kept@) =~= without(now, name@));
        }
    }
    assert(fields(list@).take(list.len() as int) =~= fields(list@));
    *list = kept;
}

/// The list with exactly one header of the given name: those that were
/// there are removed and the new one stands at the end.
pub open spec fn with_only(list: Seq<Field>, name: Seq<u8>, value: Seq<u8>) -> Seq<Field> {
    without(list, name).push(Field { name, value })
}

/// Sets a header, replacing any of the same name.
pub fn set_header(list: &mut Vec<Header>, name: &[u8], value: &[u8])
    ensures
        fields(final(list)@) == with_only(fields(old(list)@), name@, value@),
{
    remove_header(list, name);
    let ghost before = fields(list@);
    list.push(Header::new(name, value));
    assert(fields(list@) =~= before.push(Field { name: name@, value: value@ }));
}

/// Adds a header at the end of the list, whatever it holds already.
pub fn append_header(list: &mut Vec<Header>, name: &[u8], value: &[u8])
    ensures
        fields(final(list)@) == fields(old(list)@).push(Field { name: name@, value: value@ }),
{
    let ghost before = fields(list@);
    list.push(Header::new(name, value));
    assert(fields(list@) =~= before.push(Field { name: name@, value: value@ }));
}

/// Whether a byte may stand in a header name: a letter, a digit, or one of
/// ``! " # $ % & ' * + - . ^ _ ` | ~``.
pub open spec fn is_name_byte(b: u8) -> bool {
    ||| 33 <= b <= 39
    ||| b == 42
    ||| b == 43
    ||| b == 45
    ||| b == 46
    ||| 48 <= b <= 57
    ||| 65 <= b <= 90
    ||| 94 <= b <= 122
    ||| b == 124
    ||| b == 126
}

/// A well-formed header name: between 1 and 65535 bytes, each of them a
/// name byte.
pub open spec fn is_header_name(name: Seq<u8>) -> bool {
    &&& 1 <= name.len() <= 65535
    &&& forall|i: int| 0 <= i < name.len() ==> is_name_byte(#[trigger] name[i])
}

/// Whether a byte may stand in a header value: a tab, or anything from the
/// space upwards but the delete character.
pub open spec fn is_value_byte(b: u8) -> bool {
    (b >= 32 && b != 127) || b == 9
}

/// A well-formed header value: every byte is a value byte.
pub open spec fn is_header_value(value: Seq<u8>) -> bool {
    forall|i: int| 0 <= i < value.len() ==> is_value_byte(#[trigger] value[i])
}

/// A header whose name and value are both well formed.
pub open spec fn is_valid_field(field: Field) -> bool {
    is_header_name(field.name) && is_header_value(field.value)
}

/// Asks `http::header::HeaderName::from_bytes` whether it accepts `name`.
/// Taken on trust: it accepts exactly the names of 1 to 65535 bytes whose
/// bytes all have an entry in its table of header characters, which are the
/// bytes of [`is_name_byte`].
#[verifier::external_body]
fn parses_as_name(name: &[u8]) -> (r: bool)
    ensures
        r == is_header_name(name@),
{
    http::header::HeaderName::from_bytes(name).is_ok()
}

/// Asks `http::header::HeaderValue::from_bytes` whether it accepts `value`.
/// Taken on trust: it rejects a value exactly when one of its bytes is below
/// 32 and not a tab, or is 127.
#[verifier::external_body]
fn parses_as_value(value: &[u8]) -> (r: bool)
    ensures
        r == is_header_value(value@),
{
    http::header::HeaderValue::from_bytes(value).is_ok()
}

/// Whether `name` is a well-formed header name.
pub fn valid_name(name: &[u8]) -> (r: bool)
    ensures
        r == is_header_name(name@),
{
    parses_as_name(name)
}

/// Whether `value` is a well-formed header value.
pub fn valid_value(value: &[u8]) -> (r: bool)
    ensures
        r == is_header_value(value@),
{
    parses_as_value(value)
}

/// Where the first header of a name stands once a header is added at the
/// end of the list.
pub proof fn lemma_first_named_push(list: Seq<Field>, field: Field, name: Seq<u8>, from: int)
    requires
        0 <= from <= list.len(),
    ensures
        first_named(list.push(field), name, from) == if first_named(list, name, from) < list.len() {
            first_named(list, name, from)
        } else if same_name(field.name, name) {
            list.len() as int
        } else {
            (list.len() + 1) as int
        },
    decreases list.len() - from,
{
    let longer = list.push(field);
    if from < list.len() {
        assert(longer[from] == list[from]);
        if !same_name(list[from].name, name) {
            lemma_first_named_push(list, field, name, from + 1);
        }
    } else {
        assert(longer[from] == field);
        if !same_name(field.name, name) {
            assert(first_named(longer, name, from + 1) == longer.len());
        }
    }
}

/// Looking a name up in a list with one more header at its end: a header
/// that was found before is still found; else the new one is, if its name
/// matches.
pub proof fn lemma_lookup_push(list: Seq<Field>, field: Field, name: Seq<u8>)
    ensures
        lookup(list.push(field), name) == if has_header(list, name) {
            lookup(list, name)
        } else if same_name(field.name, name) {
            Some(field.value)
        } else {
            None
        },
{
    lemma_first_named_push(list, field, name, 0);
    lemma_first_named(list, name, 0);
    let longer = list.push(field);
    if has_header(list, name) {
        assert(longer[first_named(list, name, 0)] == list[first_named(list, name, 0)]);
    } else if same_name(field.name, name) {
        assert(longer[list.len() as int] == field);
    }
}

/// Looking a name up in two lists put one after the other: a header of the
/// first list wins over one of the second.
pub proof fn lemma_lookup_concat(a: Seq<Field>, b: Seq<Field>, name: Seq<u8>)
    ensures
        has_header(a + b, name) == (has_header(a, name) || has_header(b, name)),
        lookup(a + b, name) == if has_header(a, name) {
            lookup(a, name)
        } else {
            lookup(b, name)
        },
    decreases b.len(),
{
    if b.len() == 0 {
        assert(a + b =~= a);
    } else {
        let front = b.drop_last();
        lemma_lookup_concat(a, front, name);
        assert(a + b =~= (a + front).push(b.last()));
        assert(b =~= front.push(b.last()));
        lemma_lookup_push(a + front, b.last(), name);
        lemma_lookup_push(front, b.last(), name);
    }
}

/// Two names that denote the same header find the same header.
pub proof fn lemma_first_named_same(list: Seq<Field>, a: Seq<u8>, b: Seq<u8>, from: int)
    requires
        same_name(a, b),
    ensures
        first_named(list, a, from) == first_named(list, b, from),
    decreases list.len() - from,
{
    if from < list.len() {
        lemma_first_named_same(list, a, b, from + 1);
    }
}

/// Removing the headers of one name leaves the lookup of any other name as
/// it was.
pub proof fn lemma_lookup_without(list: Seq<Field>, name: Seq<u8>, other: Seq<u8>)
    requires
        !same_name(name, other),
    ensures
        lookup(without(list, name), other) == lookup(list, other),
    decreases list.len(),
{
    if list.len() > 0 {
        let front = list.drop_last();
        let last = list.last();
        assert(list =~= front.push(last));
        lemma_lookup_without(front, name, other);
        lemma_lookup_push(front, last, other);
        if !same_name(last.name, name) {
            lemma_lookup_push(without(front, name), last, other);
        }
    }
}

/// After a header was set, looking its name up gives the value it was set
/// to, and looking any other name up gives what it gave before.
pub proof fn lemma_with_only(list: Seq<Field>, name: Seq<u8>, value: Seq<u8>, other: Seq<u8>)
    ensures
        lookup(with_only(list, name, value), name) == Some(value),
        !same_name(name, other) ==> lookup(with_only(list, name, value), other) == lookup(
            list,
            other,
        ),
{
    let field = Field { name, value };
    lemma_without(list, name);
    lemma_lookup_push(without(list, name), field, name);
    if !same_name(name, other) {
        lemma_lookup_without(list, name, other);
        lemma_lookup_push(without(list, name), field, other);
    }
}

} // verus!
