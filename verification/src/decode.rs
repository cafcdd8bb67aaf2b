//! Decoding of an instruction word into its operand fields.

use vstd::prelude::*;

verus! {

/// The operand fields of one instruction word. Every instruction reads the
/// fields it needs and ignores the others.
#[derive(Clone, Copy, Debug, PartialEq, Eq)]
pub struct Operands {
    /// Bits 12 to 15: the instruction family.
    pub family: u8,
    /// Bits 8 to 11: the index of the first register operand.
    pub x: u8,
    /// Bits 4 to 7: the index of the second register operand.
    pub y: u8,
    /// Bits 0 to 3: a four-bit immediate.
    pub n: u8,
    /// Bits 0 to 7: an eight-bit immediate.
    pub kk: u8,
    /// Bits 0 to 11: an address.
    pub nnn: u16,
}

/// The fields of `word`, each as a quotient and remainder by powers of two.
pub open spec fn decode_spec(word: u16) -> Operands {
    Operands {
        family: (word / 0x1000) as u8,
        x: ((word / 0x100) % 0x10) as u8,
        y: ((word / 0x10) % 0x10) as u8,
        n: (word % 0x10) as u8,
        kk: (word % 0x100) as u8,
        nnn: word % 0x1000,
    }
}

/// Shifting and masking select the same bits as dividing and taking the
/// remainder.
proof fn lemma_fields_by_bits(word: u16)
    ensures
        word >> 12 == word / 0x1000,
        (word >> 8) & 0xF == (word / 0x100) % 0x10,
        (word >> 4) & 0xF == (word / 0x10) % 0x10,
        word & 0xF == word % 0x10,
        word & 0xFF == word % 0x100,
        word & 0xFFF == word % 0x1000,
{
    assert(word >> 12 == word / 0x1000) by (bit_vector);
    assert((word >> 8) & 0xF == (word / 0x100) % 0x10) by (bit_vector);
    assert((word >> 4) & 0xF == (word / 0x10) % 0x10) by (bit_vector);
    assert(word & 0xF == word % 0x10) by (bit_vector);
    assert(word & 0xFF == word % 0x100) by (bit_vector);
    assert(word & 0xFFF == word % 0x1000) by (bit_vector);
}

/// Splits an instruction word into its operand fields. Never fails: every
/// word has all six fields.
pub fn decode(word: u16) -> (ops: Operands)
    ensures
        ops == decode_spec(word),
        ops.family < 16,
        ops.x < 16,
        ops.y < 16,
        ops.n < 16,
        ops.nnn < 0x1000,
        word == ops.family * 0x1000 + ops.nnn,
        ops.nnn == ops.x * 0x100 + ops.kk,
        ops.kk == ops.y * 0x10 + ops.n,
{
    proof {
        lemma_fields_by_bits(word);
    }
    Operands {
        family: (word >> 12) as u8,
        x: ((word >> 8) & 0xF) as u8,
        y: ((word >> 4) & 0xF) as u8,
        n: (word & 0xF) as u8,
        kk: (word & 0xFF) as u8,
        nnn: word & 0xFFF,
    }
}

} // verus!
