//! Byte orders of 16-bit values.
//!
//! The display controller takes every 16-bit quantity most significant byte
//! first, whatever the order the host keeps its integers in. This module
//! states both orders over plain bytes and proves that encoding and decoding
//! undo each other.

use vstd::prelude::*;

verus! {

/// The least significant byte of `v`.
pub open spec fn low_byte(v: u16) -> u8 {
    (v & 0xff) as u8
}

/// The most significant byte of `v`.
pub open spec fn high_byte(v: u16) -> u8 {
    (v >> 8) as u8
}

/// The value with most significant byte `high` and least significant byte `low`.
pub open spec fn join(high: u8, low: u8) -> u16 {
    ((high as u16) << 8) | (low as u16)
}

/// `v` with its two bytes exchanged.
pub open spec fn swapped(v: u16) -> u16 {
    join(low_byte(v), high_byte(v))
}

/// The two bytes of `v`, least significant first.
pub open spec fn le_bytes(v: u16) -> Seq<u8> {
    seq![low_byte(v), high_byte(v)]
}

/// The two bytes of `v`, most significant first.
pub open spec fn be_bytes(v: u16) -> Seq<u8> {
    seq![high_byte(v), low_byte(v)]
}

/// The value that two bytes stand for when the least significant comes first.
pub open spec fn from_le(bytes: Seq<u8>) -> u16
    recommends
        bytes.len() == 2,
{
    join(bytes[1], bytes[0])
}

/// The value that two bytes stand for when the most significant comes first.
pub open spec fn from_be(bytes: Seq<u8>) -> u16
    recommends
        bytes.len() == 2,
{
    join(bytes[0], bytes[1])
}

/// The bytes of a run of values, each least significant byte first.
pub open spec fn words_le(words: Seq<u16>) -> Seq<u8> {
    Seq::new(
        2 * words.len(),
        |i: int|
            if i % 2 == 0 {
                low_byte(words[i / 2])
            } else {
                high_byte(words[i / 2])
            },
    )
}

/// The bytes of a run of values, each most significant byte first.
pub open spec fn words_be(words: Seq<u16>) -> Seq<u8> {
    Seq::new(
        2 * words.len(),
        |i: int|
            if i % 2 == 0 {
                high_byte(words[i / 2])
            } else {
                low_byte(words[i / 2])
            },
    )
}

/// Splitting a value into bytes and joining them again gives the value back.
pub proof fn lemma_join_split(v: u16)
    ensures
        join(high_byte(v), low_byte(v)) == v,
{
    assert(((((v >> 8) as u8) as u16) << 8) | (((v & 0xff) as u8) as u16) == v) by (bit_vector);
}

/// Joining two bytes and splitting the value again gives the bytes back.
pub proof fn lemma_split_join(high: u8, low: u8)
    ensures
        high_byte(join(high, low)) == high,
        low_byte(join(high, low)) == low,
{
    assert(((((high as u16) << 8) | (low as u16)) >> 8) as u8 == high) by (bit_vector);
    assert(((((high as u16) << 8) | (low as u16)) & 0xff) as u8 == low) by (bit_vector);
}

/// Encoding a value least significant byte first and decoding it gives the
/// value back.
pub proof fn lemma_le_round_trip(v: u16)
    ensures
        le_bytes(v).len() == 2,
        from_le(le_bytes(v)) == v,
{
    lemma_join_split(v);
}

/// Encoding a value most significant byte first and decoding it gives the
/// value back.
pub proof fn lemma_be_round_trip(v: u16)
    ensures
        be_bytes(v).len() == 2,
        from_be(be_bytes(v)) == v,
{
    lemma_join_split(v);
}

/// Decoding two bytes and encoding the value again gives the bytes back, in
/// either order.
pub proof fn lemma_bytes_round_trip(bytes: Seq<u8>)
    requires
        bytes.len() == 2,
    ensures
        le_bytes(from_le(bytes)) == bytes,
        be_bytes(from_be(bytes)) == bytes,
{
    lemma_split_join(bytes[1], bytes[0]);
    lemma_split_join(bytes[0], bytes[1]);
    assert(le_bytes(from_le(bytes)) =~= bytes);
    assert(be_bytes(from_be(bytes)) =~= bytes);
}

/// Exchanging the bytes of a value turns one byte order into the other, and
/// doing it twice changes nothing.
pub proof fn lemma_swapped(v: u16)
    ensures
        le_bytes(swapped(v)) == be_bytes(v),
        be_bytes(swapped(v)) == le_bytes(v),
        swapped(swapped(v)) == v,
{
    lemma_split_join(low_byte(v), high_byte(v));
    lemma_join_split(v);
    assert(le_bytes(swapped(v)) =~= be_bytes(v));
    assert(be_bytes(swapped(v)) =~= le_bytes(v));
}

/// The bytes of `v`, least significant first.
pub fn to_le_bytes(v: u16) -> (bytes: [u8; 2])
    ensures
        bytes@ == le_bytes(v),
{
    let bytes: [u8; 2] = [(v & 0xff) as u8, (v >> 8) as u8];
    assert(bytes@ =~= le_bytes(v));
    bytes
}

/// The bytes of `v`, most significant first.
pub fn to_be_bytes(v: u16) -> (bytes: [u8; 2])
    ensures
        bytes@ == be_bytes(v),
{
    let bytes: [u8; 2] = [(v >> 8) as u8, (v & 0xff) as u8];
    assert(bytes@ =~= be_bytes(v));
    bytes
}

/// The value of two bytes of which the least significant comes first.
pub fn from_le_bytes(bytes: [u8; 2]) -> (v: u16)
    ensures
        v == from_le(bytes@),
{
    ((bytes[1] as u16) << 8) | (bytes[0] as u16)
}

/// The value of two bytes of which the most significant comes first.
pub fn from_be_bytes(bytes: [u8; 2]) -> (v: u16)
    ensures
        v == from_be(bytes@),
{
    ((bytes[0] as u16) << 8) | (bytes[1] as u16)
}

/// The bytes of `words`, each value least significant byte first.
pub fn encode_le(words: &[u16]) -> (bytes: Vec<u8>)
    ensures
        bytes@ == words_le(words@),
{
    let n: usize = words.len();
    let mut bytes: Vec<u8> = Vec::new();
    let mut i: usize = 0;
    while i < n
        invariant
            n == words@.len(),
            i <= n,
            bytes@ == words_le(words@.take(i as int)),
        decreases n - i,
    {
        let pair: [u8; 2] = to_le_bytes(words[i]);
        bytes.push(pair[0]);
        bytes.push(pair[1]);
        i = i + 1;
        assert(bytes@ =~= words_le(words@.take(i as int)));
    }
    assert(words@.take(n as int) =~= words@);
    bytes
}

/// The bytes of `words`, each value most significant byte first.
pub fn encode_be(words: &[u16]) -> (bytes: Vec<u8>)
    ensures
        bytes@ == words_be(words@),
{
    let n: usize = words.len();
    let mut bytes: Vec<u8> = Vec::new();
    let mut i: usize = 0;
    while i < n
        invariant
            n == words@.len(),
            i <= n,
            bytes@ == words_be(words@.take(i as int)),
        decreases n - i,
    {
        let pair: [u8; 2] = to_be_bytes(words[i]);
        bytes.push(pair[0]);
        bytes.push(pair[1]);
        i = i + 1;
        assert(bytes@ =~= words_be(words@.take(i as int)));
    }
    assert(words@.take(n as int) =~= words@);
    bytes
}

} // verus!
