//! The byte-level encoding of 32-bit words on the Wayland wire, which uses
//! the byte order of the machine the client runs on.

use vstd::prelude::*;
use vstd::endian::{Endian, endianness};

verus! {

/// The four bytes of `x`, least significant first.
pub open spec fn le_bytes(x: u32) -> Seq<u8> {
    seq![
        (x & 0xff) as u8,
        ((x >> 8u32) & 0xff) as u8,
        ((x >> 16u32) & 0xff) as u8,
        ((x >> 24u32) & 0xff) as u8,
    ]
}

/// The word whose bytes, least significant first, are `b[0..4]`.
pub open spec fn le_value(b: Seq<u8>) -> u32 {
    (b[0] as u32) | ((b[1] as u32) << 8u32) | ((b[2] as u32) << 16u32) | ((b[3] as u32) << 24u32)
}

/// The four bytes of `x` in the byte order of the machine.
pub open spec fn ne_bytes(x: u32) -> Seq<u8> {
    match endianness() {
        Endian::Little => le_bytes(x),
        Endian::Big => le_bytes(x).reverse(),
    }
}

/// The word that `b[0..4]` represents in the byte order of the machine.
pub open spec fn ne_value(b: Seq<u8>) -> u32 {
    match endianness() {
        Endian::Little => le_value(b),
        Endian::Big => le_value(b.subrange(0, 4).reverse()),
    }
}

/// Decoding the encoding of a word gives the word back.
pub proof fn lemma_ne_value_of_bytes(x: u32)
    ensures
        ne_bytes(x).len() == 4,
        ne_value(ne_bytes(x)) == x,
{
    let b0 = (x & 0xff) as u8;
    let b1 = ((x >> 8u32) & 0xff) as u8;
    let b2 = ((x >> 16u32) & 0xff) as u8;
    let b3 = ((x >> 24u32) & 0xff) as u8;
    assert((b0 as u32) | ((b1 as u32) << 8u32) | ((b2 as u32) << 16u32) | ((b3 as u32) << 24u32)
        == x) by (bit_vector)
        requires
            b0 == (x & 0xff) as u8,
            b1 == ((x >> 8u32) & 0xff) as u8,
            b2 == ((x >> 16u32) & 0xff) as u8,
            b3 == ((x >> 24u32) & 0xff) as u8,
    ;
    let s = le_bytes(x);
    assert(s.reverse().subrange(0, 4).reverse() =~= s);
}

/// Encoding the word that four bytes represent gives the bytes back.
pub proof fn lemma_ne_bytes_of_value(b: Seq<u8>)
    requires
        b.len() == 4,
    ensures
        ne_bytes(ne_value(b)) == b,
{
    assert forall|c: Seq<u8>| c.len() == 4 implies #[trigger] le_bytes(le_value(c)) =~= c by {
        let b0 = c[0];
        let b1 = c[1];
        let b2 = c[2];
        let b3 = c[3];
        let v = le_value(c);
        assert(v == (b0 as u32) | ((b1 as u32) << 8u32) | ((b2 as u32) << 16u32) | ((b3 as u32)
            << 24u32));
        assert((v & 0xff) as u8 == b0 && ((v >> 8u32) & 0xff) as u8 == b1 && ((v >> 16u32) & 0xff)
            as u8 == b2 && ((v >> 24u32) & 0xff) as u8 == b3) by (bit_vector)
            requires
                v == (b0 as u32) | ((b1 as u32) << 8u32) | ((b2 as u32) << 16u32) | ((b3 as u32)
                    << 24u32),
        ;
    }
    let r = b.subrange(0, 4).reverse();
    assert(b.subrange(0, 4) =~= b);
    assert(r.reverse() =~= b);
    assert(le_bytes(le_value(r)) =~= r);
}

/// Two words with the same encoding are equal.
pub proof fn lemma_ne_bytes_injective(x: u32, y: u32)
    requires
        ne_bytes(x) == ne_bytes(y),
    ensures
        x == y,
{
    lemma_ne_value_of_bytes(x);
    lemma_ne_value_of_bytes(y);
}

/// `u32::to_ne_bytes`: the memory representation of `x` in the byte order
/// of the machine. The contract says exactly that, with the machine's byte
/// order taken from vstd's `endianness()`.
#[verifier::external_body]
pub(crate) fn u32_to_ne_bytes(x: u32) -> (res: [u8; 4])
    ensures
        res@ == ne_bytes(x),
{
    x.to_ne_bytes()
}

/// `u32::from_ne_bytes`: the word whose memory representation, in the byte
/// order of the machine, is `b`.
#[verifier::external_body]
pub(crate) fn u32_from_ne_bytes(b: [u8; 4]) -> (res: u32)
    ensures
        res == ne_value(b@),
{
    u32::from_ne_bytes(b)
}

} // verus!
