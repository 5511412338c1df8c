//! Big-endian encoding of 32-bit words, as used on the NTP wire.
use byteorder::{BigEndian, ByteOrder};
use vstd::prelude::*;

verus! {

/// The four bytes of `n`, most significant first.
pub open spec fn be_bytes(n: u32) -> Seq<u8> {
    seq![(n >> 24u32) as u8, (n >> 16u32) as u8, (n >> 8u32) as u8, n as u8]
}

/// The word whose big-endian bytes are `b0 b1 b2 b3`.
pub open spec fn be_word(b0: u8, b1: u8, b2: u8, b3: u8) -> u32 {
    ((b0 as u32) << 24u32) | ((b1 as u32) << 16u32) | ((b2 as u32) << 8u32) | (b3 as u32)
}

/// The big-endian word that starts at position `i` of `b`.
pub open spec fn be_word_at(b: Seq<u8>, i: int) -> u32 {
    be_word(b[i], b[i + 1], b[i + 2], b[i + 3])
}

/// Reading back the bytes of a word gives the word.
pub proof fn lemma_be_word_of_bytes(n: u32)
    ensures
        be_word_at(be_bytes(n), 0) == n,
{
    let b = be_bytes(n);
    assert(be_word((n >> 24u32) as u8, (n >> 16u32) as u8, (n >> 8u32) as u8, n as u8) == n)
        by (bit_vector);
    assert(b[0] == (n >> 24u32) as u8 && b[1] == (n >> 16u32) as u8);
    assert(b[2] == (n >> 8u32) as u8 && b[3] == n as u8);
}

/// Relies on byteorder's `BigEndian::write_u32`: it stores `n` into the first
/// four bytes of the buffer, most significant byte first.
#[verifier::external_body]
fn be_bytes_of(n: u32) -> (r: [u8; 4])
    ensures
        r@ == be_bytes(n),
{
    let mut b = [0u8; 4];
    BigEndian::write_u32(&mut b, n);
    b
}

/// Relies on byteorder's `BigEndian::read_u32`: it reads the first four bytes
/// of the slice as a big-endian word, and panics on fewer than four.
#[verifier::external_body]
pub(crate) fn read_be_u32(buf: &[u8], pos: usize) -> (r: u32)
    requires
        pos + 4 <= buf@.len(),
    ensures
        r == be_word_at(buf@, pos as int),
{
    BigEndian::read_u32(&buf[pos..])
}

/// Appends the big-endian bytes of `n` to `out`.
pub(crate) fn push_be_u32(out: &mut Vec<u8>, n: u32)
    ensures
        final(out)@ == old(out)@ + be_bytes(n),
{
    let b = be_bytes_of(n);
    out.push(b[0]);
    out.push(b[1]);
    out.push(b[2]);
    out.push(b[3]);
    assert(out@ =~= old(out)@ + be_bytes(n));
}

} // verus!
