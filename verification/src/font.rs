//! The built-in hexadecimal font: sixteen glyphs of five rows each, kept in
//! the part of memory that is reserved for the interpreter.

use vstd::prelude::*;
use crate::machine::{Chip8, MachineState};

verus! {

/// Address of the first byte of the glyph for digit 0.
pub const FONT_BASE: u16 = 0x50;

/// Number of bytes, one per row, of one glyph.
pub const GLYPH_HEIGHT: u16 = 5;

/// Number of bytes of the whole font.
pub const FONT_SIZE: usize = 80;

/// The address of the glyph for the hexadecimal digit in the low four bits
/// of `value`.
pub open spec fn glyph_address(value: u8) -> u16 {
    (FONT_BASE + GLYPH_HEIGHT * (value % 16)) as u16
}

/// The rows of the sixteen glyphs, digit 0 first.
pub open spec fn font_rows() -> Seq<u8> {
    seq![
        0xF0u8, 0x90, 0x90, 0x90, 0xF0,
        0x20, 0x60, 0x20, 0x20, 0x70,
        0xF0, 0x10, 0xF0, 0x80, 0xF0,
        0xF0, 0x10, 0xF0, 0x10, 0xF0,
        0x90, 0x90, 0xF0, 0x10, 0x10,
        0xF0, 0x80, 0xF0, 0x10, 0xF0,
        0xF0, 0x80, 0xF0, 0x90, 0xF0,
        0xF0, 0x10, 0x20, 0x40, 0x40,
        0xF0, 0x90, 0xF0, 0x90, 0xF0,
        0xF0, 0x90, 0xF0, 0x10, 0xF0,
        0xF0, 0x90, 0xF0, 0x90, 0x90,
        0xE0, 0x90, 0xE0, 0x90, 0xE0,
        0xF0, 0x80, 0x80, 0x80, 0xF0,
        0xE0, 0x90, 0x90, 0x90, 0xE0,
        0xF0, 0x80, 0xF0, 0x80, 0xF0,
        0xF0, 0x80, 0xF0, 0x80, 0x80,
    ]
}

/// Memory with the font written over the 80 bytes from `FONT_BASE` on.
pub open spec fn with_font(memory: Seq<u8>) -> Seq<u8> {
    Seq::new(
        memory.len(),
        |a: int|
            if FONT_BASE <= a < FONT_BASE + FONT_SIZE {
                font_rows()[a - FONT_BASE]
            } else {
                memory[a]
            },
    )
}

/// The font as an array.
fn font_table() -> (table: [u8; 80])
    ensures
        table@ == font_rows(),
{
    let table: [u8; 80] = [
        0xF0, 0x90, 0x90, 0x90, 0xF0,
        0x20, 0x60, 0x20, 0x20, 0x70,
        0xF0, 0x10, 0xF0, 0x80, 0xF0,
        0xF0, 0x10, 0xF0, 0x10, 0xF0,
        0x90, 0x90, 0xF0, 0x10, 0x10,
        0xF0, 0x80, 0xF0, 0x10, 0xF0,
        0xF0, 0x80, 0xF0, 0x90, 0xF0,
        0xF0, 0x10, 0x20, 0x40, 0x40,
        0xF0, 0x90, 0xF0, 0x90, 0xF0,
        0xF0, 0x90, 0xF0, 0x10, 0xF0,
        0xF0, 0x90, 0xF0, 0x90, 0x90,
        0xE0, 0x90, 0xE0, 0x90, 0xE0,
        0xF0, 0x80, 0x80, 0x80, 0xF0,
        0xE0, 0x90, 0x90, 0x90, 0xE0,
        0xF0, 0x80, 0xF0, 0x80, 0xF0,
        0xF0, 0x80, 0xF0, 0x80, 0x80,
    ];
    assert(table@ =~= font_rows());
    table
}

impl Chip8 {
    /// Writes the font into the reserved part of memory, where the glyph
    /// instruction expects it. Nothing else changes.
    pub fn load_font(&mut self)
        ensures
            final(self)@ == (MachineState { memory: with_font(old(self)@.memory), ..old(self)@ }),
            old(self).wf() ==> final(self).wf(),
    {
        let table = font_table();
        let mut k: usize = 0;
        while k < 80
            invariant
                k <= 80,
                table@ == font_rows(),
                forall|a: int|
                    0 <= a < 4096 ==> self.memory@[a] == if FONT_BASE <= a < FONT_BASE + k {
                        font_rows()[a - FONT_BASE]
                    } else {
                        old(self).memory@[a]
                    },
                self.stack == old(self).stack,
                self.stack_pointer == old(self).stack_pointer,
                self.program_counter == old(self).program_counter,
                self.registers == old(self).registers,
                self.addr_register == old(self).addr_register,
                self.screen == old(self).screen,
                self.delay_timer == old(self).delay_timer,
                self.sound_timer == old(self).sound_timer,
                self.keys == old(self).keys,
            decreases 80 - k,
        {
            self.memory[0x50 + k] = table[k];
            k = k + 1;
        }
        assert(self@.memory =~= with_font(old(self)@.memory));
    }
}

} // verus!
