//! Evaluations at a participant's index, and their byte form.
use vstd::prelude::*;
use crate::types::Idx;

verus! {

/// Something evaluated at the index of a participant: a share of a secret,
/// or the partial signature made with one.
#[derive(Debug, Clone, PartialEq, Eq)]
pub struct Eval<A> {
    pub value: A,
    pub index: Idx,
}

/// The four bytes of `n`, least significant first.
#[verifier::opaque]
pub open spec fn le_bytes_u32(n: u32) -> Seq<u8> {
    seq![
        (n % 0x100) as u8,
        (n / 0x100 % 0x100) as u8,
        (n / 0x1_0000 % 0x100) as u8,
        (n / 0x100_0000) as u8,
    ]
}

/// The eight bytes of `n`, least significant first.
#[verifier::opaque]
pub open spec fn le_bytes_u64(n: u64) -> Seq<u8> {
    le_bytes_u32((n % 0x1_0000_0000) as u32) + le_bytes_u32((n / 0x1_0000_0000) as u32)
}

/// The number whose bytes, least significant first, are the first four of
/// `bytes`.
#[verifier::opaque]
pub open spec fn le_value_u32(bytes: Seq<u8>) -> u32
    recommends
        bytes.len() >= 4,
{
    (bytes[0] + bytes[1] * 0x100 + bytes[2] * 0x1_0000 + bytes[3] * 0x100_0000) as u32
}

/// The number whose bytes, least significant first, are the first eight of
/// `bytes`.
#[verifier::opaque]
pub open spec fn le_value_u64(bytes: Seq<u8>) -> u64
    recommends
        bytes.len() >= 8,
{
    (le_value_u32(bytes) + le_value_u32(bytes.skip(4)) * 0x1_0000_0000) as u64
}

/// The byte form of an evaluation of bytes: the length of the value as eight
/// bytes, the value, then the index as four bytes, both numbers least
/// significant byte first.
pub open spec fn encoded(value: Seq<u8>, index: Idx) -> Seq<u8>
    recommends
        value.len() <= u64::MAX,
{
    le_bytes_u64(value.len() as u64) + value + le_bytes_u32(index)
}

/// The evaluation that `bytes` begin with, if they begin with one. Bytes
/// after it are ignored.
pub open spec fn decoded(bytes: Seq<u8>) -> Option<(Seq<u8>, Idx)> {
    if bytes.len() < 8 {
        None
    } else {
        let len = le_value_u64(bytes) as int;
        if bytes.len() < 8 + len + 4 {
            None
        } else {
            Some((bytes.subrange(8, 8 + len), le_value_u32(bytes.skip(8 + len))))
        }
    }
}

/// Reading a number takes the leading bytes only.
pub proof fn lemma_le_value_prefix(bytes: Seq<u8>, rest: Seq<u8>)
    ensures
        bytes.len() >= 4 ==> le_value_u32(bytes + rest) == le_value_u32(bytes),
        bytes.len() >= 8 ==> le_value_u64(bytes + rest) == le_value_u64(bytes),
{
    reveal(le_value_u32);
    reveal(le_value_u64);
    if bytes.len() >= 8 {
        assert((bytes + rest).skip(4) == bytes.skip(4) + rest);
    }
}

/// Four bytes written from a number read back as that number.
pub proof fn lemma_le_u32_round_trip(n: u32)
    ensures
        le_bytes_u32(n).len() == 4,
        le_value_u32(le_bytes_u32(n)) == n,
{
    reveal(le_bytes_u32);
    reveal(le_value_u32);
}

/// Eight bytes written from a number read back as that number.
pub proof fn lemma_le_u64_round_trip(n: u64)
    ensures
        le_bytes_u64(n).len() == 8,
        le_value_u64(le_bytes_u64(n)) == n,
{
    reveal(le_bytes_u64);
    reveal(le_value_u64);
    let low = (n % 0x1_0000_0000) as u32;
    let high = (n / 0x1_0000_0000) as u32;
    lemma_le_u32_round_trip(low);
    lemma_le_u32_round_trip(high);
    let bytes = le_bytes_u64(n);
    assert(bytes.skip(4) == le_bytes_u32(high));
    assert(bytes == le_bytes_u32(low) + le_bytes_u32(high));
    lemma_le_value_prefix(le_bytes_u32(low), le_bytes_u32(high));
}

/// An encoded evaluation decodes to itself, whatever follows it.
pub proof fn lemma_decode_encoded(value: Seq<u8>, index: Idx, rest: Seq<u8>)
    requires
        value.len() <= u64::MAX,
    ensures
        decoded(encoded(value, index) + rest) == Some((value, index)),
{
    let len = value.len() as u64;
    let bytes = encoded(value, index) + rest;
    lemma_le_u64_round_trip(len);
    lemma_le_u32_round_trip(index);
    assert(bytes == le_bytes_u64(len) + (value + le_bytes_u32(index) + rest));
    lemma_le_value_prefix(le_bytes_u64(len), value + le_bytes_u32(index) + rest);
    assert(bytes.subrange(8, 8 + len) == value);
    assert(bytes.skip(8 + len) == le_bytes_u32(index) + rest);
    lemma_le_value_prefix(le_bytes_u32(index), rest);
}

} // verus!
