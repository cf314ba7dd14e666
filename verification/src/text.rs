//! Byte-level text: ASCII literals, case folding, decimal numbers and
//! splitting on a separator.
//!
//! Header names and values travel as bytes. Everything here is stated over
//! `Seq<u8>`.

use vstd::prelude::*;
use vstd::slice::slice_subrange;
use vstd::slice::slice_to_vec;
use vstd::string::is_ascii;
use vstd::string::StrSliceExecFns;

verus! {

/// The bytes of an ASCII text, one byte per character.
pub open spec fn ascii(text: Seq<char>) -> Seq<u8> {
    Seq::new(text.len(), |i: int| text[i] as u8)
}

/// The bytes of an ASCII string.
pub fn literal(text: &str) -> (r: Vec<u8>)
    requires
        is_ascii(text),
    ensures
        r@ == ascii(text@),
{
    broadcast use vstd::string::is_ascii_spec_bytes;

    text.as_bytes_vec()
}

/// An owned copy of a byte slice.
pub fn copy_bytes(bytes: &[u8]) -> (r: Vec<u8>)
    ensures
        r@ == bytes@,
{
    slice_to_vec(bytes)
}

/// Whether two byte strings are equal.
pub fn bytes_equal(a: &[u8], b: &[u8]) -> (r: bool)
    ensures
        r == (a@ == b@),
{
    if a.len() != b.len() {
        return false;
    }
    let mut i: usize = 0;
    while i < a.len()
        invariant
            i <= a.len(),
            a.len() == b.len(),
            forall|j: int| 0 <= j < i ==> a@[j] == b@[j],
        decreases a.len() - i,
    {
        if a[i] != b[i] {
            return false;
        }
        i += 1;
    }
    assert(a@ =~= b@);
    true
}

/// The lower-case form of an ASCII byte; other bytes are left alone.
pub open spec fn lower(b: u8) -> u8 {
    if 65 <= b <= 90 {
        (b + 32) as u8
    } else {
        b
    }
}

/// Computes [`lower`].
pub fn lower_byte(b: u8) -> (r: u8)
    ensures
        r == lower(b),
{
    if 65 <= b && b <= 90 {
        b + 32
    } else {
        b
    }
}

/// A byte string with every ASCII letter in lower case.
pub open spec fn lowered(s: Seq<u8>) -> Seq<u8> {
    Seq::new(s.len(), |i: int| lower(s[i]))
}

/// Two header names denote the same header: they are equal once ASCII case
/// is ignored.
pub open spec fn same_name(a: Seq<u8>, b: Seq<u8>) -> bool {
    lowered(a) == lowered(b)
}

/// Decides [`same_name`].
pub fn names_match(a: &[u8], b: &[u8]) -> (r: bool)
    ensures
        r == same_name(a@, b@),
{
    if a.len() != b.len() {
        assert(lowered(a@).len() != lowered(b@).len());
        return false;
    }
    let mut i: usize = 0;
    while i < a.len()
        invariant
            i <= a.len(),
            a.len() == b.len(),
            forall|j: int| 0 <= j < i ==> lower(a@[j]) == lower(b@[j]),
        decreases a.len() - i,
    {
        if lower_byte(a[i]) != lower_byte(b[i]) {
            assert(lowered(a@)[i as int] != lowered(b@)[i as int]);
            return false;
        }
        i += 1;
    }
    assert(lowered(a@) =~= lowered(b@));
    true
}

/// The decimal digits of a number, most significant first, without leading
/// zeros.
pub open spec fn decimal(n: nat) -> Seq<u8>
    decreases n,
{
    if n < 10 {
        seq![(48 + n) as u8]
    } else {
        decimal(n / 10).push((48 + n % 10) as u8)
    }
}

/// Writes a number in decimal.
pub fn decimal_text(n: usize) -> (r: Vec<u8>)
    ensures
        r@ == decimal(n as nat),
    decreases n,
{
    if n < 10 {
        let mut r: Vec<u8> = Vec::new();
        r.push(48u8 + n as u8);
        assert(r@ =~= decimal(n as nat));
        r
    } else {
        let mut r: Vec<u8> = decimal_text(n / 10);
        r.push(48u8 + (n % 10) as u8);
        r
    }
}

/// The number that a string of decimal digits denotes.
pub open spec fn decimal_value(digits: Seq<u8>) -> nat
    decreases digits.len(),
{
    if digits.len() == 0 {
        0
    } else {
        (decimal_value(digits.drop_last()) * 10 + (digits.last() - 48)) as nat
    }
}

/// A decimal text is made of one or more digits, and reading it back gives
/// the number it was written from.
pub proof fn lemma_decimal(n: nat)
    ensures
        decimal(n).len() >= 1,
        forall|i: int| 0 <= i < decimal(n).len() ==> 48 <= #[trigger] decimal(n)[i] <= 57,
        decimal_value(decimal(n)) == n,
    decreases n,
{
    if n < 10 {
        let d = decimal(n);
        assert(d.drop_last() =~= Seq::<u8>::empty());
        assert(decimal_value(d.drop_last()) == 0);
    } else {
        lemma_decimal(n / 10);
        let d = decimal(n);
        assert(d.drop_last() =~= decimal(n / 10));
    }
}

/// Whether `pattern` stands in `s` at offset `at`.
pub open spec fn occurs_at(s: Seq<u8>, pattern: Seq<u8>, at: int) -> bool {
    &&& 0 <= at
    &&& at + pattern.len() <= s.len()
    &&& s.subrange(at, at + pattern.len()) == pattern
}

/// The offset of the first occurrence of `pattern` in `s` at or after
/// `from`, or the length of `s` if there is none.
pub open spec fn first_occurrence(s: Seq<u8>, pattern: Seq<u8>, from: int) -> int
    decreases s.len() - from,
{
    if from >= s.len() {
        s.len() as int
    } else if occurs_at(s, pattern, from) {
        from
    } else {
        first_occurrence(s, pattern, from + 1)
    }
}

/// The first occurrence lies between `from` and the end of `s`.
pub proof fn lemma_first_occurrence_bounds(s: Seq<u8>, pattern: Seq<u8>, from: int)
    requires
        0 <= from <= s.len(),
    ensures
        from <= first_occurrence(s, pattern, from) <= s.len(),
        first_occurrence(s, pattern, from) < s.len() ==> occurs_at(
            s,
            pattern,
            first_occurrence(s, pattern, from),
        ),
    decreases s.len() - from,
{
    if from < s.len() && !occurs_at(s, pattern, from) {
        lemma_first_occurrence_bounds(s, pattern, from + 1);
    }
}

/// Decides [`occurs_at`].
pub fn matches_at(s: &[u8], pattern: &[u8], at: usize) -> (r: bool)
    ensures
        r == occurs_at(s@, pattern@, at as int),
{
    if pattern.len() > s.len() || at > s.len() - pattern.len() {
        return false;
    }
    bytes_equal(slice_subrange(s, at, at + pattern.len()), pattern)
}

/// Computes [`first_occurrence`].
pub fn find_from(s: &[u8], pattern: &[u8], from: usize) -> (r: usize)
    ensures
        r == first_occurrence(s@, pattern@, from as int),
{
    if from >= s.len() {
        return s.len();
    }
    let mut i: usize = from;
    while i < s.len()
        invariant
            from <= i <= s.len(),
            first_occurrence(s@, pattern@, from as int) == first_occurrence(
                s@,
                pattern@,
                i as int,
            ),
        decreases s.len() - i,
    {
        if matches_at(s, pattern, i) {
            return i;
        }
        i += 1;
    }
    i
}

/// The pieces of `s` between the occurrences of a separator, scanning from
/// the left. A text without the separator is one piece, and so is the empty
/// text; an empty separator splits nothing.
pub open spec fn split_on(s: Seq<u8>, separator: Seq<u8>) -> Seq<Seq<u8>>
    decreases s.len(),
{
    let at = first_occurrence(s, separator, 0);
    if separator.len() == 0 || at < 0 || at + separator.len() > s.len() {
        seq![s]
    } else {
        seq![s.subrange(0, at)] + split_on(
            s.subrange(at + separator.len(), s.len() as int),
            separator,
        )
    }
}

/// The byte strings that a list of buffers holds.
pub open spec fn texts(list: Seq<Vec<u8>>) -> Seq<Seq<u8>> {
    Seq::new(list.len(), |i: int| list[i]@)
}

/// The bytes that an optional buffer holds.
pub open spec fn bytes_of(buffer: Option<Vec<u8>>) -> Option<Seq<u8>> {
    match buffer {
        Some(value) => Some(value@),
        None => None,
    }
}

/// The texts that an optional list of buffers holds.
pub open spec fn texts_of(list: Option<Vec<Vec<u8>>>) -> Option<Seq<Seq<u8>>> {
    match list {
        Some(entries) => Some(texts(entries@)),
        None => None,
    }
}

/// Computes [`split_on`].
pub fn split_text(s: &[u8], separator: &[u8]) -> (r: Vec<Vec<u8>>)
    ensures
        texts(r@) == split_on(s@, separator@),
{
    let mut pieces: Vec<Vec<u8>> = Vec::new();
    if separator.len() == 0 {
        pieces.push(copy_bytes(s));
        assert(texts(pieces@) =~= seq![s@]);
        return pieces;
    }
    let mut start: usize = 0;
    assert(s@.subrange(0, s@.len() as int) =~= s@);
    assert(texts(pieces@) =~= Seq::<Seq<u8>>::empty());
    loop
        invariant
            separator@.len() > 0,
            start <= s.len(),
            split_on(s@, separator@) == texts(pieces@) + split_on(
                s@.subrange(start as int, s@.len() as int),
                separator@,
            ),
        decreases s.len() - start,
    {
        let rest: &[u8] = slice_subrange(s, start, s.len());
        let at: usize = find_from(rest, separator, 0);
        proof {
            lemma_first_occurrence_bounds(rest@, separator@, 0);
        }
        let ghost before = texts(pieces@);
        if at >= rest.len() {
            pieces.push(copy_bytes(rest));
            proof {
                assert(split_on(rest@, separator@) =~= seq![rest@]);
                assert(texts(pieces@) =~= before.push(rest@));
            }
            return pieces;
        }
        pieces.push(copy_bytes(slice_subrange(rest, 0, at)));
        proof {
            assert(texts(pieces@) =~= before.push(rest@.subrange(0, at as int)));
            assert(rest@.subrange(at + separator@.len(), rest@.len() as int) =~= s@.subrange(
                start + at + separator@.len(),
                s@.len() as int,
            ));
        }
        start = start + at + separator.len();
    }
}

} // verus!
