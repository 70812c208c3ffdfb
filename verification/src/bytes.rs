//! Handles and pointers as the eight little-endian bytes of an argument value.

use vstd::prelude::*;

verus! {

/// The number that eight little-endian bytes spell.
pub open spec fn spec_u64_from_le_bytes(b: Seq<u8>) -> int {
    b[0] + b[1] * 0x100 + b[2] * 0x1_0000 + b[3] * 0x100_0000 + b[4] * 0x1_0000_0000 + b[5]
        * 0x100_0000_0000 + b[6] * 0x1_0000_0000_0000 + b[7] * 0x100_0000_0000_0000
}

/// The eight little-endian bytes of a number.
pub open spec fn spec_u64_to_le_bytes(v: u64) -> Seq<u8> {
    seq![
        (v % 0x100) as u8,
        ((v / 0x100) % 0x100) as u8,
        ((v / 0x1_0000) % 0x100) as u8,
        ((v / 0x100_0000) % 0x100) as u8,
        ((v / 0x1_0000_0000) % 0x100) as u8,
        ((v / 0x100_0000_0000) % 0x100) as u8,
        ((v / 0x1_0000_0000_0000) % 0x100) as u8,
        ((v / 0x100_0000_0000_0000) % 0x100) as u8,
    ]
}

/// Reads a number from eight little-endian bytes.
pub fn u64_from_le_bytes(b: &[u8]) -> (v: u64)
    requires
        b@.len() == 8,
    ensures
        v == spec_u64_from_le_bytes(b@),
{
    (b[0] as u64) + (b[1] as u64) * 0x100 + (b[2] as u64) * 0x1_0000 + (b[3] as u64) * 0x100_0000
        + (b[4] as u64) * 0x1_0000_0000 + (b[5] as u64) * 0x100_0000_0000 + (b[6] as u64)
        * 0x1_0000_0000_0000 + (b[7] as u64) * 0x100_0000_0000_0000
}

/// Writes a number as eight little-endian bytes.
pub fn u64_to_le_bytes(v: u64) -> (b: Vec<u8>)
    ensures
        b@ == spec_u64_to_le_bytes(v),
{
    let mut b: Vec<u8> = Vec::new();
    b.push((v % 0x100) as u8);
    b.push(((v / 0x100) % 0x100) as u8);
    b.push(((v / 0x1_0000) % 0x100) as u8);
    b.push(((v / 0x100_0000) % 0x100) as u8);
    b.push(((v / 0x1_0000_0000) % 0x100) as u8);
    b.push(((v / 0x100_0000_0000) % 0x100) as u8);
    b.push(((v / 0x1_0000_0000_0000) % 0x100) as u8);
    b.push(((v / 0x100_0000_0000_0000) % 0x100) as u8);
    assert(b@ =~= spec_u64_to_le_bytes(v));
    b
}

/// Writing a number and reading it back gives the number.
pub proof fn lemma_le_bytes_roundtrip(v: u64)
    ensures
        spec_u64_to_le_bytes(v).len() == 8,
        spec_u64_from_le_bytes(spec_u64_to_le_bytes(v)) == v,
{
    assert(v == (v % 0x100) + ((v / 0x100) % 0x100) * 0x100 + ((v / 0x1_0000) % 0x100) * 0x1_0000
        + ((v / 0x100_0000) % 0x100) * 0x100_0000 + ((v / 0x1_0000_0000) % 0x100) * 0x1_0000_0000
        + ((v / 0x100_0000_0000) % 0x100) * 0x100_0000_0000 + ((v / 0x1_0000_0000_0000) % 0x100)
        * 0x1_0000_0000_0000 + ((v / 0x100_0000_0000_0000) % 0x100) * 0x100_0000_0000_0000)
        by (bit_vector);
    let b = spec_u64_to_le_bytes(v);
    assert(b[0] == v % 0x100);
    assert(b[1] == (v / 0x100) % 0x100);
    assert(b[2] == (v / 0x1_0000) % 0x100);
    assert(b[3] == (v / 0x100_0000) % 0x100);
    assert(b[4] == (v / 0x1_0000_0000) % 0x100);
    assert(b[5] == (v / 0x100_0000_0000) % 0x100);
    assert(b[6] == (v / 0x1_0000_0000_0000) % 0x100);
    assert(b[7] == (v / 0x100_0000_0000_0000) % 0x100);
}

} // verus!
