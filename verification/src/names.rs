//! The header names and fixed texts of the protocol.

use crate::text::ascii;
use crate::text::decimal;
use crate::text::decimal_text;
use crate::text::lemma_decimal;
use crate::text::literal;
use crate::text::lowered;
use crate::text::same_name;
use vstd::prelude::*;

verus! {

/// The header that carries a whole header mapping as one JSON text.
pub open spec fn bare_headers() -> Seq<u8> {
    ascii("x-bare-headers"@)
}

/// What every chunk header's name starts with.
pub open spec fn chunk_prefix() -> Seq<u8> {
    ascii("X-BARE-HEADERS-"@)
}

/// The name of the chunk header with the given index: the prefix and the
/// index in decimal.
pub open spec fn chunk_name(index: nat) -> Seq<u8> {
    chunk_prefix() + decimal(index)
}

/// The header that lists the inbound headers to relay.
pub open spec fn forward_headers() -> Seq<u8> {
    ascii("x-bare-forward-headers"@)
}

/// The header that lists the upstream headers to hand back as they are.
pub open spec fn pass_headers() -> Seq<u8> {
    ascii("x-bare-pass-headers"@)
}

/// The header that lists the upstream statuses to hand back as the
/// transport status.
pub open spec fn pass_status() -> Seq<u8> {
    ascii("x-bare-pass-status"@)
}

/// The header that carries the whole target URL.
pub open spec fn bare_url() -> Seq<u8> {
    ascii("x-bare-url"@)
}

/// The header that carries the target's protocol, such as `https:`.
pub open spec fn bare_protocol() -> Seq<u8> {
    ascii("x-bare-protocol"@)
}

/// The header that carries the target's host.
pub open spec fn bare_host() -> Seq<u8> {
    ascii("x-bare-host"@)
}

/// The header that carries the target's path.
pub open spec fn bare_path() -> Seq<u8> {
    ascii("x-bare-path"@)
}

/// The header that carries the upstream status as a number.
pub open spec fn bare_status() -> Seq<u8> {
    ascii("x-bare-status"@)
}

/// The header that carries the upstream status as words.
pub open spec fn bare_status_text() -> Seq<u8> {
    ascii("x-bare-status-text"@)
}

/// The header that says how long a body is.
pub open spec fn content_length() -> Seq<u8> {
    ascii("content-length"@)
}

/// The header that says what kind of body is sent.
pub open spec fn content_type() -> Seq<u8> {
    ascii("content-type"@)
}

/// The header that names the host a request is for.
pub open spec fn host() -> Seq<u8> {
    ascii("host"@)
}

/// The header that says which origins may read a response.
pub open spec fn allow_origin() -> Seq<u8> {
    ascii("access-control-allow-origin"@)
}

/// The header that says which request headers a client may send.
pub open spec fn allow_headers() -> Seq<u8> {
    ascii("access-control-allow-headers"@)
}

/// The header that says which methods a client may use.
pub open spec fn allow_methods() -> Seq<u8> {
    ascii("access-control-allow-methods"@)
}

/// The header that says which response headers a client may read.
pub open spec fn expose_headers() -> Seq<u8> {
    ascii("access-control-expose-headers"@)
}

/// The separator of the entries of a list header: a comma and a space.
pub open spec fn list_separator() -> Seq<u8> {
    ascii(", "@)
}

/// The byte that every chunk's value starts with: a semicolon.
pub const CHUNK_MARKER: u8 = 59;

/// Computes [`chunk_name`].
pub fn chunk_name_bytes(index: usize) -> (r: Vec<u8>)
    ensures
        r@ == chunk_name(index as nat),
{
    proof {
        reveal_strlit("X-BARE-HEADERS-");
    }
    let mut name: Vec<u8> = literal("X-BARE-HEADERS-");
    let mut digits: Vec<u8> = decimal_text(index);
    name.append(&mut digits);
    name
}

/// Chunk names are 16 bytes or longer, so none matches the name of the
/// main header, and two of them match only if their indices are equal.
pub proof fn lemma_chunk_names(i: nat, j: nat)
    ensures
        chunk_name(i).len() >= 16,
        bare_headers().len() == 14,
        !same_name(chunk_name(i), bare_headers()),
        same_name(chunk_name(i), chunk_name(j)) <==> i == j,
{
    reveal_strlit("X-BARE-HEADERS-");
    reveal_strlit("x-bare-headers");
    lemma_decimal(i);
    lemma_decimal(j);
    assert(lowered(chunk_name(i)).len() != lowered(bare_headers()).len());
    if same_name(chunk_name(i), chunk_name(j)) {
        let a = lowered(chunk_name(i));
        let b = lowered(chunk_name(j));
        assert(decimal(i).len() == decimal(j).len());
        assert forall|k: int| 0 <= k < decimal(i).len() implies decimal(i)[k] == decimal(j)[k] by {
            assert(a[15 + k] == b[15 + k]);
            assert(chunk_name(i)[15 + k] == decimal(i)[k]);
            assert(chunk_name(j)[15 + k] == decimal(j)[k]);
        }
        assert(decimal(i) =~= decimal(j));
    }
}

/// The names that every response carries, as a list: the content type,
/// the two status headers and the four headers that open the response to
/// any origin.
pub open spec fn response_names() -> Seq<Seq<u8>> {
    seq![
        content_type(),
        bare_status(),
        bare_status_text(),
        allow_origin(),
        allow_headers(),
        allow_methods(),
        expose_headers(),
    ]
}

/// No two of the names that every response carries denote the same header.
pub proof fn lemma_response_names_differ()
    ensures
        forall|i: int, j: int|
            0 <= i < j < response_names().len() ==> !same_name(
                #[trigger] response_names()[i],
                #[trigger] response_names()[j],
            ),
{
    reveal_strlit("content-type");
    reveal_strlit("x-bare-status");
    reveal_strlit("x-bare-status-text");
    reveal_strlit("access-control-allow-origin");
    reveal_strlit("access-control-allow-headers");
    reveal_strlit("access-control-allow-methods");
    reveal_strlit("access-control-expose-headers");
    let names = response_names();
    assert(lowered(names[0]).len() == 12);
    assert(lowered(names[1]).len() == 13);
    assert(lowered(names[2]).len() == 18);
    assert(lowered(names[3]).len() == 27);
    assert(lowered(names[4]).len() == 28);
    assert(lowered(names[5]).len() == 28);
    assert(lowered(names[6]).len() == 29);
    assert(lowered(names[4])[21] != lowered(names[5])[21]);
}

/// None of the names that every response carries is the name of the main
/// header or of a chunk.
pub proof fn lemma_response_names_carry_no_mapping(k: nat)
    ensures
        forall|i: int|
            0 <= i < response_names().len() ==> !same_name(
                #[trigger] response_names()[i],
                bare_headers(),
            ) && !same_name(response_names()[i], chunk_name(k)),
{
    reveal_strlit("x-bare-headers");
    reveal_strlit("X-BARE-HEADERS-");
    reveal_strlit("content-type");
    reveal_strlit("x-bare-status");
    reveal_strlit("x-bare-status-text");
    reveal_strlit("access-control-allow-origin");
    reveal_strlit("access-control-allow-headers");
    reveal_strlit("access-control-allow-methods");
    reveal_strlit("access-control-expose-headers");
    lemma_decimal(k);
    let names = response_names();
    let chunk = lowered(chunk_name(k));
    assert(lowered(bare_headers()).len() == 14);
    assert(chunk.len() >= 16);
    assert(chunk[0] == 120 && chunk[7] == 104);
    assert(lowered(names[0]).len() == 12);
    assert(lowered(names[1]).len() == 13);
    assert(lowered(names[2]).len() == 18 && lowered(names[2])[7] == 115);
    assert(lowered(names[3]).len() == 27 && lowered(names[3])[0] == 97);
    assert(lowered(names[4]).len() == 28 && lowered(names[4])[0] == 97);
    assert(lowered(names[5]).len() == 28 && lowered(names[5])[0] == 97);
    assert(lowered(names[6]).len() == 29 && lowered(names[6])[0] == 97);
}

} // verus!
