//! The ledger object wrapper.
//!
//! A ledger object carries an identifier derived from a creation preimage,
//! ownership metadata with a version counter, and its payload. Objects are
//! consumed by the routing core; the core never executes them.

use vstd::prelude::*;
use vstd::string::StringExecFns;

use crate::hashing::{blake3_digest, blake3_of};

verus! {

/// Address of an owner, such as an identity token's identifier.
pub type Address = String;

/// Ledger object identifier: the hex form of a creation digest.
pub type ObjectId = String;

/// Ownership and versioning metadata of a ledger object.
#[derive(Debug, Clone)]
pub struct ObjectMetadata {
    /// The owner, if the object is owned.
    pub owner: Option<Address>,
    /// Version counter, starting at one and bumped by every mutation.
    pub version: u64,
}

/// A ledger object: identifier, metadata and payload.
#[derive(Debug, Clone)]
pub struct Object<T> {
    /// Object identifier.
    pub id: ObjectId,
    /// Ownership and versioning metadata.
    pub metadata: ObjectMetadata,
    /// The payload.
    pub data: T,
}

/// The version after one more mutation; the counter pegs at its maximum.
pub open spec fn spec_next_version(v: u64) -> u64 {
    if v < u64::MAX {
        (v + 1) as u64
    } else {
        v
    }
}

impl<T> Object<T> {
    /// Creates a version-one object owned by the given address.
    pub fn new_owned(id: ObjectId, owner: &Address, data: T) -> (r: Self)
        ensures
            r.id == id,
            r.metadata.owner matches Some(o) && o == *owner,
            r.metadata.version == 1,
            r.data == data,
    {
        Self { id, metadata: ObjectMetadata { owner: Some(owner.clone()), version: 1 }, data }
    }

    /// Bumps the version counter.
    pub fn increment_version(&mut self)
        ensures
            final(self).id == old(self).id,
            final(self).metadata.owner == old(self).metadata.owner,
            final(self).metadata.version == spec_next_version(old(self).metadata.version),
            final(self).data == old(self).data,
    {
        if self.metadata.version < u64::MAX {
            self.metadata.version = self.metadata.version + 1;
        }
    }
}

/// The lower-case hex digits in order.
pub open spec fn hex_chars() -> Seq<char> {
    seq!['0', '1', '2', '3', '4', '5', '6', '7', '8', '9', 'a', 'b', 'c', 'd', 'e', 'f']
}

/// The lower-case hex form of a byte string, two digits per byte.
pub open spec fn hex_of(bytes: Seq<u8>) -> Seq<char>
    decreases bytes.len(),
{
    if bytes.len() == 0 {
        Seq::empty()
    } else {
        hex_of(bytes.drop_last()) + seq![
            hex_chars()[bytes.last() as int / 16],
            hex_chars()[bytes.last() as int % 16],
        ]
    }
}

/// The identifier derived from a creation preimage: the hex form of its
/// digest.
pub open spec fn spec_object_id(data: Seq<u8>) -> Seq<char> {
    hex_of(blake3_of(data))
}

/// One lower-case hex digit.
fn hex_digit_str(d: u8) -> (r: &'static str)
    requires
        d < 16,
    ensures
        r@ =~= seq![hex_chars()[d as int]],
{
    proof {
        reveal_strlit("0");
        reveal_strlit("1");
        reveal_strlit("2");
        reveal_strlit("3");
        reveal_strlit("4");
        reveal_strlit("5");
        reveal_strlit("6");
        reveal_strlit("7");
        reveal_strlit("8");
        reveal_strlit("9");
        reveal_strlit("a");
        reveal_strlit("b");
        reveal_strlit("c");
        reveal_strlit("d");
        reveal_strlit("e");
        reveal_strlit("f");
    }
    match d {
        0 => "0",
        1 => "1",
        2 => "2",
        3 => "3",
        4 => "4",
        5 => "5",
        6 => "6",
        7 => "7",
        8 => "8",
        9 => "9",
        10 => "a",
        11 => "b",
        12 => "c",
        13 => "d",
        14 => "e",
        _ => "f",
    }
}

/// Derives an object identifier from a creation preimage: the digest of
/// the bytes, written in lower-case hex.
pub fn generate_object_id(data: &[u8]) -> (r: ObjectId)
    ensures
        r@ == spec_object_id(data@),
{
    let digest = blake3_digest(data);
    let mut out = String::new();
    let mut i: usize = 0;
    proof {
        assert(digest@.take(0) =~= Seq::<u8>::empty());
        assert(out@ =~= hex_of(digest@.take(0)));
    }
    while i < digest.len()
        invariant
            0 <= i <= digest@.len(),
            digest@ == blake3_of(data@),
            out@ == hex_of(digest@.take(i as int)),
        decreases digest.len() - i,
    {
        let b = digest[i];
        out.append(hex_digit_str(b / 16));
        out.append(hex_digit_str(b % 16));
        proof {
            assert(digest@.take(i + 1).drop_last() =~= digest@.take(i as int));
            assert(digest@.take(i + 1).last() == digest@[i as int]);
            assert(out@ =~= hex_of(digest@.take(i + 1)));
        }
        i = i + 1;
    }
    proof {
        assert(digest@.take(digest@.len() as int) =~= digest@);
    }
    out
}

/// The decimal digits of `n`, most significant first.
pub open spec fn dec_chars(n: nat) -> Seq<char>
    decreases n,
{
    if n < 10 {
        seq![dec_digit(n)]
    } else {
        dec_chars(n / 10).push(dec_digit(n % 10))
    }
}

/// One decimal digit as a character.
pub open spec fn dec_digit(d: nat) -> char {
    if d == 0 {
        '0'
    } else if d == 1 {
        '1'
    } else if d == 2 {
        '2'
    } else if d == 3 {
        '3'
    } else if d == 4 {
        '4'
    } else if d == 5 {
        '5'
    } else if d == 6 {
        '6'
    } else if d == 7 {
        '7'
    } else if d == 8 {
        '8'
    } else {
        '9'
    }
}

/// One decimal digit.
fn dec_digit_str(d: u64) -> (r: &'static str)
    requires
        d < 10,
    ensures
        r@ =~= seq![dec_digit(d as nat)],
{
    proof {
        reveal_strlit("0");
        reveal_strlit("1");
        reveal_strlit("2");
        reveal_strlit("3");
        reveal_strlit("4");
        reveal_strlit("5");
        reveal_strlit("6");
        reveal_strlit("7");
        reveal_strlit("8");
        reveal_strlit("9");
    }
    match d {
        0 => "0",
        1 => "1",
        2 => "2",
        3 => "3",
        4 => "4",
        5 => "5",
        6 => "6",
        7 => "7",
        8 => "8",
        _ => "9",
    }
}

/// Appends the decimal digits of `n` to a string.
pub fn append_u64(out: &mut String, n: u64)
    ensures
        final(out)@ == old(out)@ + dec_chars(n as nat),
    decreases n,
{
    if n < 10 {
        out.append(dec_digit_str(n));
        assert(out@ =~= old(out)@ + dec_chars(n as nat));
    } else {
        append_u64(out, n / 10);
        out.append(dec_digit_str(n % 10));
        assert(out@ =~= old(out)@ + dec_chars(n as nat));
    }
}

} // verus!
