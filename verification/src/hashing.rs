//! Hashing primitives shared by the routing strategies.
//!
//! All cryptographic hashing goes through one trusted wrapper around
//! `blake3::hash`; everything derived from the digest (64-bit truncation,
//! ring-point preimages) is verified code.

use vstd::prelude::*;

verus! {

/// The 256-bit digest that `blake3::hash` computes for the given bytes.
/// The digest depends on the input bytes alone.
pub uninterp spec fn blake3_of(data: Seq<u8>) -> Seq<u8>;

/// Relies on `blake3::hash`: a pure function from the input bytes to a
/// 32-byte digest; the streaming interface of the crate is documented to
/// agree with this one-shot form.
#[verifier::external_body]
pub fn blake3_digest(data: &[u8]) -> (r: Vec<u8>)
    ensures
        r@ == blake3_of(data@),
        r@.len() == 32,
{
    blake3::hash(data).as_bytes().to_vec()
}

/// The unsigned value of eight bytes read in little-endian order.
pub open spec fn u64_from_le(b: Seq<u8>) -> u64
    recommends
        b.len() >= 8,
{
    (b[0] as u64) | (b[1] as u64) << 8 | (b[2] as u64) << 16 | (b[3] as u64) << 24
        | (b[4] as u64) << 32 | (b[5] as u64) << 40 | (b[6] as u64) << 48 | (b[7] as u64) << 56
}

/// A digest truncated to its first eight bytes, little-endian.
pub open spec fn hash64_of(data: Seq<u8>) -> u64 {
    u64_from_le(blake3_of(data))
}

/// Hashes the given bytes and truncates the digest to 64 bits.
pub fn hash64(data: &[u8]) -> (r: u64)
    ensures
        r == hash64_of(data@),
{
    let d = blake3_digest(data);
    let r = (d[0] as u64) | (d[1] as u64) << 8 | (d[2] as u64) << 16 | (d[3] as u64) << 24
        | (d[4] as u64) << 32 | (d[5] as u64) << 40 | (d[6] as u64) << 48 | (d[7] as u64) << 56;
    r
}

/// The decimal digits of `n`, as ASCII bytes, most significant first.
pub open spec fn dec_bytes(n: nat) -> Seq<u8>
    decreases n,
{
    if n < 10 {
        seq![(48 + n) as u8]
    } else {
        dec_bytes(n / 10).push((48 + n % 10) as u8)
    }
}

/// Appends the decimal digits of `n` (ASCII, most significant first) to `out`.
pub fn push_dec_bytes(out: &mut Vec<u8>, n: u64)
    ensures
        final(out)@ == old(out)@ + dec_bytes(n as nat),
    decreases n,
{
    if n < 10 {
        out.push(48 + (n as u8));
        assert(out@ =~= old(out)@ + dec_bytes(n as nat));
    } else {
        push_dec_bytes(out, n / 10);
        out.push(48 + ((n % 10) as u8));
        assert(out@ =~= old(out)@ + dec_bytes(n as nat));
    }
}

} // verus!
