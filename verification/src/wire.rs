//! Big-endian layout of 16-bit fields.

use vstd::prelude::*;

verus! {

/// The two octets of a 16-bit field in network order: most significant first.
pub open spec fn be16(v: u16) -> Seq<u8> {
    seq![(v / 256) as u8, (v % 256) as u8]
}

/// Splits a 16-bit value into its two octets, most significant first.
pub fn u16_to_be_bytes(v: u16) -> (b: [u8; 2])
    ensures
        b@ == be16(v),
        b[0] as int * 256 + b[1] as int == v,
{
    let hi: u8 = (v / 256) as u8;
    let lo: u8 = (v % 256) as u8;
    let b = [hi, lo];
    assert(b@ =~= be16(v));
    b
}

} // verus!
