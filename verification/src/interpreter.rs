//! The executor: fetch, decode and execute on a [`Chip8`].

use vstd::prelude::*;
use crate::decode::{decode, Operands};
use crate::machine::{Chip8, Fault, MachineState, StepOutcome, MEMORY_SIZE};
use crate::random::random_byte;
use crate::display::{
    drawn, erased_at, erases, row_covers, row_drawn, row_erased_at, row_erases, source_column,
    source_row, sprite_bit, sprite_covers, target_column, target_row,
};
use crate::font::{FONT_BASE, GLYPH_HEIGHT};
use crate::semantics::{
    alu, call, draw, draws_random, execute, fetch, fetchable, is_lowest_key_down, key_down,
    lowest_key_down, misc, next, next_skipping, registers_loaded, registers_stored, step,
    subroutine_return, Step, RETURN_WORD,
};

verus! {

impl Chip8 {
    /// Reads the instruction word at the program counter, high byte first.
    pub fn read_word(&self) -> (word: Result<u16, Fault>)
        ensures
            word == fetch(self@),
    {
        let pc: usize = self.program_counter as usize;
        if pc + 1 >= MEMORY_SIZE {
            return Err(Fault::MemoryOutOfBounds);
        }
        let high: u8 = self.memory[pc];
        let low: u8 = self.memory[pc + 1];
        assert(((high as u16) << 8 | (low as u16)) == high * 0x100 + low) by (bit_vector);
        Ok((high as u16) << 8 | (low as u16))
    }

    /// Moves the program counter to the next instruction, or past it.
    fn advance(&mut self, skip: bool)
        requires
            fetchable(old(self)@),
        ensures
            final(self)@ == next_skipping(old(self)@, skip),
            !skip ==> final(self)@ == next(old(self)@),
    {
        if skip {
            self.program_counter = self.program_counter + 4;
        } else {
            self.program_counter = self.program_counter + 2;
        }
    }

    /// The arithmetic and logic family.
    fn op_alu(&mut self, ops: Operands)
        requires
            ops.x < 16,
            ops.y < 16,
        ensures
            final(self)@ == alu(old(self)@, ops),
    {
        let x: usize = ops.x as usize;
        let vx: u8 = self.registers[x];
        let vy: u8 = self.registers[ops.y as usize];
        match ops.n {
            0x0 => {
                self.registers[x] = vy;
            },
            0x1 => {
                self.registers[x] = vx | vy;
            },
            0x2 => {
                self.registers[x] = vx & vy;
            },
            0x3 => {
                self.registers[x] = vx ^ vy;
            },
            0x4 => {
                let carry: bool = vx as u16 + vy as u16 > 255;
                self.registers[x] = vx.wrapping_add(vy);
                self.registers[0xF] = if carry { 1 } else { 0 };
            },
            0x5 => {
                self.registers[0xF] = if vy > vx { 1 } else { 0 };
                self.registers[x] = vx.wrapping_sub(vy);
            },
            0x6 => {
                self.registers[0xF] = if vx & 1 == 1 { 1 } else { 0 };
                self.registers[x] = vx >> 1;
            },
            0x7 => {
                self.registers[0xF] = if vx > vy { 1 } else { 0 };
                self.registers[x] = vy.wrapping_sub(vx);
            },
            0xE => {
                self.registers[0xF] = if vx & 0x80 == 0x80 { 1 } else { 0 };
                self.registers[x] = vx << 1;
            },
            _ => {},
        }
    }

    /// A call: pushes the return address and jumps.
    fn op_call(&mut self, target: u16) -> (res: Result<StepOutcome, Fault>)
        requires
            fetchable(old(self)@),
        ensures
            (Step { state: final(self)@, result: res }) == call(old(self)@, target),
            res is Err ==> *final(self) == *old(self),
    {
        if self.stack_pointer >= 16 {
            return Err(Fault::StackOverflow);
        }
        self.stack[self.stack_pointer as usize] = self.program_counter + 2;
        self.stack_pointer = self.stack_pointer + 1;
        self.program_counter = target;
        Ok(StepOutcome::Completed)
    }

    /// A return: pops the newest return address into the program counter.
    fn op_return(&mut self) -> (res: Result<StepOutcome, Fault>)
        ensures
            (Step { state: final(self)@, result: res }) == subroutine_return(old(self)@),
            res is Err ==> *final(self) == *old(self),
    {
        if self.stack_pointer == 0 {
            return Err(Fault::StackUnderflow);
        }
        if self.stack_pointer > 16 {
            return Err(Fault::StackOverflow);
        }
        self.stack_pointer = self.stack_pointer - 1;
        self.program_counter = self.stack[self.stack_pointer as usize];
        Ok(StepOutcome::Completed)
    }

    /// The key with the lowest number among those that are down, if any is.
    fn first_key_down(&self) -> (key: Option<u8>)
        ensures
            key == lowest_key_down(self@.keys),
    {
        let mut k: u8 = 0;
        while k < 16
            invariant
                k <= 16,
                forall|lower: int| 0 <= lower < k ==> !self.keys@[lower],
            decreases 16 - k,
        {
            if self.keys[k as usize] {
                assert(is_lowest_key_down(self@.keys, k as int));
                return Some(k);
            }
            k = k + 1;
        }
        assert(forall|key: int| !is_lowest_key_down(self@.keys, key));
        None
    }

    /// Whether the key that `value` names is down.
    fn is_key_down(&self, value: u8) -> (down: bool)
        ensures
            down == key_down(self@.keys, value),
    {
        value < 16 && self.keys[value as usize]
    }

    /// Stores the registers `V0` to `Vx` in memory from `start` on.
    fn store_registers(&mut self, start: usize, x: usize)
        requires
            x < 16,
            start + x < MEMORY_SIZE,
        ensures
            final(self)@ == (MachineState {
                memory: registers_stored(old(self)@.memory, old(self)@.registers, start as int, x + 1),
                ..old(self)@
            }),
    {
        let mut k: usize = 0;
        while k <= x
            invariant
                k <= x + 1,
                x < 16,
                start + x < MEMORY_SIZE,
                self.memory@ == registers_stored(
                    old(self)@.memory,
                    old(self)@.registers,
                    start as int,
                    k as int,
                ),
                self.stack == old(self).stack,
                self.stack_pointer == old(self).stack_pointer,
                self.program_counter == old(self).program_counter,
                self.registers == old(self).registers,
                self.addr_register == old(self).addr_register,
                self.screen == old(self).screen,
                self.delay_timer == old(self).delay_timer,
                self.sound_timer == old(self).sound_timer,
                self.keys == old(self).keys,
            decreases x + 1 - k,
        {
            self.memory[start + k] = self.registers[k];
            k = k + 1;
        }
    }

    /// Loads the registers `V0` to `Vx` from memory from `start` on.
    fn load_registers(&mut self, start: usize, x: usize)
        requires
            x < 16,
            start + x < MEMORY_SIZE,
        ensures
            final(self)@ == (MachineState {
                registers: registers_loaded(old(self)@.registers, old(self)@.memory, start as int, x + 1),
                ..old(self)@
            }),
    {
        let mut k: usize = 0;
        while k <= x
            invariant
                k <= x + 1,
                x < 16,
                start + x < MEMORY_SIZE,
                self.registers@ == registers_loaded(
                    old(self)@.registers,
                    old(self)@.memory,
                    start as int,
                    k as int,
                ),
                self.stack == old(self).stack,
                self.stack_pointer == old(self).stack_pointer,
                self.program_counter == old(self).program_counter,
                self.memory == old(self).memory,
                self.addr_register == old(self).addr_register,
                self.screen == old(self).screen,
                self.delay_timer == old(self).delay_timer,
                self.sound_timer == old(self).sound_timer,
                self.keys == old(self).keys,
            decreases x + 1 - k,
        {
            self.registers[k] = self.memory[start + k];
            k = k + 1;
        }
    }

    /// The timer, key and memory family.
    fn op_misc(&mut self, ops: Operands) -> (res: Result<StepOutcome, Fault>)
        requires
            ops.x < 16,
            fetchable(old(self)@),
        ensures
            (Step { state: final(self)@, result: res }) == misc(old(self)@, ops),
            res != Ok::<StepOutcome, Fault>(StepOutcome::Completed) ==> *final(self) == *old(self),
    {
        let x: usize = ops.x as usize;
        let vx: u8 = self.registers[x];
        let start: usize = self.addr_register as usize;
        match ops.kk {
            0x07 => {
                self.registers[x] = self.delay_timer;
            },
            0x0A => {
                match self.first_key_down() {
                    Some(key) => {
                        self.registers[x] = key;
                    },
                    None => {
                        return Ok(StepOutcome::AwaitingKey);
                    },
                }
            },
            0x15 => {
                self.delay_timer = vx;
            },
            0x18 => {
                self.sound_timer = vx;
            },
            0x1E => {
                self.addr_register = self.addr_register.wrapping_add(vx as u16);
            },
            0x29 => {
                self.addr_register = FONT_BASE + GLYPH_HEIGHT * ((vx % 16) as u16);
            },
            0x33 => {
                if start + 2 >= MEMORY_SIZE {
                    return Err(Fault::MemoryOutOfBounds);
                }
                self.memory[start] = vx / 100;
                self.memory[start + 1] = (vx / 10) % 10;
                self.memory[start + 2] = vx % 10;
            },
            0x55 => {
                if start + x >= MEMORY_SIZE {
                    return Err(Fault::MemoryOutOfBounds);
                }
                self.store_registers(start, x);
            },
            0x65 => {
                if start + x >= MEMORY_SIZE {
                    return Err(Fault::MemoryOutOfBounds);
                }
                self.load_registers(start, x);
            },
            _ => {},
        }
        self.advance(false);
        Ok(StepOutcome::Completed)
    }

    /// Draws one sprite row on display row `r`, its leftmost pixel at column
    /// `x`, and says whether a lit cell went dark.
    fn draw_row(&mut self, bits: u8, x: u8, r: usize) -> (erased: bool)
        requires
            r < 32,
        ensures
            final(self).screen@[r as int]@ == row_drawn(old(self).screen@[r as int]@, bits, 8, x as int),
            forall|k: int| 0 <= k < 32 && k != r ==> final(self).screen@[k] == old(self).screen@[k],
            erased == row_erases(old(self).screen@[r as int]@, bits, 8, x as int),
            final(self).stack == old(self).stack,
            final(self).stack_pointer == old(self).stack_pointer,
            final(self).program_counter == old(self).program_counter,
            final(self).memory == old(self).memory,
            final(self).registers == old(self).registers,
            final(self).addr_register == old(self).addr_register,
            final(self).delay_timer == old(self).delay_timer,
            final(self).sound_timer == old(self).sound_timer,
            final(self).keys == old(self).keys,
    {
        let ghost before = old(self).screen@[r as int]@;
        let mut erased: bool = false;
        let mut b: u8 = 0;
        while b < 8
            invariant
                b <= 8,
                r < 32,
                before == old(self).screen@[r as int]@,
                self.screen@[r as int]@ == row_drawn(before, bits, b as int, x as int),
                forall|k: int| 0 <= k < 32 && k != r ==> self.screen@[k] == old(self).screen@[k],
                erased == row_erases(before, bits, b as int, x as int),
                self.stack == old(self).stack,
                self.stack_pointer == old(self).stack_pointer,
                self.program_counter == old(self).program_counter,
                self.memory == old(self).memory,
                self.registers == old(self).registers,
                self.addr_register == old(self).addr_register,
                self.delay_timer == old(self).delay_timer,
                self.sound_timer == old(self).sound_timer,
                self.keys == old(self).keys,
            decreases 8 - b,
        {
            let c: usize = (x as usize + b as usize) % 64;
            let set: bool = (bits >> (7 - b)) & 1 == 1;
            let lit: bool = self.screen[r][c];
            let ghost found = erased;
            assert(c == target_column(x as int, b as int));
            assert(source_column(x as int, c as int) == b);
            assert(set == sprite_bit(bits, b as int));
            assert(lit == before[c as int]);
            if set {
                if lit {
                    erased = true;
                }
                self.screen[r][c] = !lit;
            }
            proof {
                let count: int = b + 1;
                assert forall|k: int| 0 <= k < 64 implies #[trigger] row_covers(bits, count, x as int, k)
                    == (row_covers(bits, b as int, x as int, k) || (k == c && set)) by {
                    if k != c {
                        assert(source_column(x as int, k) != b);
                    }
                }
                assert(self.screen@[r as int]@ =~= row_drawn(before, bits, count, x as int));
                if found {
                    let w = choose|w: int| row_erased_at(before, bits, b as int, x as int, w);
                    assert(row_erased_at(before, bits, count, x as int, w));
                }
                if set && lit {
                    assert(row_erased_at(before, bits, count, x as int, c as int));
                }
                if row_erases(before, bits, count, x as int) {
                    let w = choose|w: int| row_erased_at(before, bits, count, x as int, w);
                    if !(w == c && set) {
                        assert(row_erased_at(before, bits, b as int, x as int, w));
                    }
                }
            }
            b = b + 1;
        }
        erased
    }

    /// The draw instruction: composes the sprite at the address register
    /// onto the display, row by row.
    fn op_draw(&mut self, ops: Operands) -> (res: Result<StepOutcome, Fault>)
        requires
            ops.x < 16,
            ops.y < 16,
            ops.n < 16,
            fetchable(old(self)@),
        ensures
            (Step { state: final(self)@, result: res }) == draw(old(self)@, ops),
            res is Err ==> *final(self) == *old(self),
    {
        let start: usize = self.addr_register as usize;
        let height: usize = ops.n as usize;
        if start + height > MEMORY_SIZE {
            return Err(Fault::MemoryOutOfBounds);
        }
        let vx: u8 = self.registers[ops.x as usize];
        let vy: u8 = self.registers[ops.y as usize];
        let ghost sprite = old(self)@.memory.subrange(start as int, start + height);
        let ghost before = old(self)@.screen;
        let mut erased: bool = false;
        let mut j: usize = 0;
        assert(self@.screen =~~= drawn(before, sprite.subrange(0, 0), vx as int, vy as int));
        while j < height
            invariant
                j <= height < 16,
                start + height <= MEMORY_SIZE,
                sprite == old(self)@.memory.subrange(start as int, start + height),
                before == old(self)@.screen,
                self@.screen == drawn(before, sprite.subrange(0, j as int), vx as int, vy as int),
                erased == erases(before, sprite.subrange(0, j as int), vx as int, vy as int),
                self.stack == old(self).stack,
                self.stack_pointer == old(self).stack_pointer,
                self.program_counter == old(self).program_counter,
                self.memory == old(self).memory,
                self.registers == old(self).registers,
                self.addr_register == old(self).addr_register,
                self.delay_timer == old(self).delay_timer,
                self.sound_timer == old(self).sound_timer,
                self.keys == old(self).keys,
            decreases height - j,
        {
            let r: usize = (vy as usize + j) % 32;
            let bits: u8 = self.memory[start + j];
            let ghost found = erased;
            let ghost shown = self@.screen;
            let row_erased: bool = self.draw_row(bits, vx, r);
            erased = erased || row_erased;
            proof {
                let x = vx as int;
                let y = vy as int;
                let done = sprite.subrange(0, j as int);
                let more = sprite.subrange(0, j + 1);
                assert(r == target_row(y, j as int));
                assert(source_row(y, r as int) == j);
                assert(more[j as int] == bits);
                assert forall|k: int, c: int| 0 <= k < 32 && 0 <= c < 64 implies #[trigger] sprite_covers(
                    more,
                    x,
                    y,
                    k,
                    c,
                ) == (sprite_covers(done, x, y, k, c) || (k == r && row_covers(bits, 8, x, c))) by {
                    if k != r {
                        assert(source_row(y, k) != j);
                    }
                    if source_row(y, k) < j {
                        assert(more[source_row(y, k)] == done[source_row(y, k)]);
                    }
                }
                assert(shown[r as int] == before[r as int]) by {
                    assert forall|c: int| 0 <= c < 64 implies shown[r as int][c] == before[r as int][c] by {
                        assert(!sprite_covers(done, x, y, r as int, c));
                    }
                    assert(shown[r as int] =~= before[r as int]);
                }
                assert forall|k: int, c: int| 0 <= k < 32 && 0 <= c < 64 implies self@.screen[k][c] == (
                before[k][c] != sprite_covers(more, x, y, k, c)) by {
                    assert(shown[k][c] == (before[k][c] != sprite_covers(done, x, y, k, c)));
                    if k == r {
                        assert(self@.screen[k] == row_drawn(before[r as int], bits, 8, x));
                    } else {
                        assert(self@.screen[k] == shown[k]);
                    }
                }
                assert(self@.screen =~~= drawn(before, more, x, y));
                if found {
                    let (k, c) = choose|k: int, c: int| erased_at(before, done, x, y, k, c);
                    assert(erased_at(before, more, x, y, k, c));
                }
                if row_erased {
                    let c = choose|c: int| row_erased_at(before[r as int], bits, 8, x, c);
                    assert(erased_at(before, more, x, y, r as int, c));
                }
                if erases(before, more, x, y) {
                    let (k, c) = choose|k: int, c: int| erased_at(before, more, x, y, k, c);
                    if sprite_covers(done, x, y, k, c) {
                        assert(erased_at(before, done, x, y, k, c));
                    } else {
                        assert(row_erased_at(before[r as int], bits, 8, x, c));
                    }
                }
            }
            j = j + 1;
        }
        assert(sprite.subrange(0, height as int) =~= sprite);
        self.registers[0xF] = if erased { 1 } else { 0 };
        self.advance(false);
        Ok(StepOutcome::Completed)
    }

    /// Executes the instruction `opcode`, taken to lie at the program
    /// counter. `random_byte` is the byte that a random instruction draws;
    /// no other instruction looks at it.
    ///
    /// A refused step, and one that awaits a key, leaves the machine as it
    /// was.
    pub fn process_opcode(&mut self, opcode: u16, random_byte: u8) -> (res: Result<
        StepOutcome,
        Fault,
    >)
        ensures
            (Step { state: final(self)@, result: res }) == execute(old(self)@, opcode, random_byte),
            res != Ok::<StepOutcome, Fault>(StepOutcome::Completed) ==> *final(self) == *old(self),
            old(self).wf() ==> final(self).wf(),
    {
        if self.program_counter as usize + 1 >= MEMORY_SIZE {
            return Err(Fault::MemoryOutOfBounds);
        }
        let ops = decode(opcode);
        let x: usize = ops.x as usize;
        let vx: u8 = self.registers[x];
        let vy: u8 = self.registers[ops.y as usize];
        match ops.family {
            0x0 => {
                if opcode == RETURN_WORD {
                    return self.op_return();
                }
                self.advance(false);
            },
            0x1 => {
                self.program_counter = ops.nnn;
            },
            0x2 => {
                return self.op_call(ops.nnn);
            },
            0x3 => {
                self.advance(vx == ops.kk);
            },
            0x4 => {
                self.advance(vx != ops.kk);
            },
            0x5 => {
                self.advance(ops.n == 0 && vx == vy);
            },
            0x6 => {
                self.registers[x] = ops.kk;
                self.advance(false);
            },
            0x7 => {
                self.registers[x] = vx.wrapping_add(ops.kk);
                self.advance(false);
            },
            0x8 => {
                self.op_alu(ops);
                self.advance(false);
            },
            0x9 => {
                self.advance(ops.n == 0 && vx != vy);
            },
            0xA => {
                self.addr_register = ops.nnn;
                self.advance(false);
            },
            0xB => {
                self.program_counter = self.registers[0] as u16 + ops.nnn;
            },
            0xC => {
                self.registers[x] = random_byte & ops.kk;
                self.advance(false);
            },
            0xD => {
                return self.op_draw(ops);
            },
            0xE => {
                if ops.kk == 0x9E {
                    let down: bool = self.is_key_down(vx);
                    self.advance(down);
                } else if ops.kk == 0xA1 {
                    let down: bool = self.is_key_down(vx);
                    self.advance(!down);
                } else {
                    self.advance(false);
                }
            },
            _ => {
                return self.op_misc(ops);
            },
        }
        Ok(StepOutcome::Completed)
    }

    /// One step of the machine with `random_byte` as its source of chance:
    /// fetches the word at the program counter and executes it.
    ///
    /// A refused step, and one that awaits a key, leaves the machine as it
    /// was.
    pub fn step(&mut self, random_byte: u8) -> (res: Result<StepOutcome, Fault>)
        ensures
            (Step { state: final(self)@, result: res }) == step(old(self)@, random_byte),
            res != Ok::<StepOutcome, Fault>(StepOutcome::Completed) ==> *final(self) == *old(self),
            old(self).wf() ==> final(self).wf(),
    {
        match self.read_word() {
            Ok(word) => self.process_opcode(word, random_byte),
            Err(fault) => Err(fault),
        }
    }

    /// Whether the instruction at the program counter is a random
    /// instruction.
    pub fn next_draws_random(&self) -> (answer: bool)
        ensures
            answer == draws_random(self@),
    {
        match self.read_word() {
            Ok(word) => decode(word).family == 0xC,
            Err(_) => false,
        }
    }

    /// One step of the machine. Where the instruction at the program counter
    /// is a random instruction its byte is drawn from the thread's random
    /// number generator, so the outcome is that of [`Chip8::step`] for some
    /// byte; for every other instruction the byte does not matter.
    pub fn execute_cycle(&mut self) -> (res: Result<StepOutcome, Fault>)
        ensures
            exists|random_byte: u8|
                (Step { state: final(self)@, result: res }) == #[trigger] step(old(self)@, random_byte),
            !draws_random(old(self)@) ==> (Step { state: final(self)@, result: res }) == step(
                old(self)@,
                0,
            ),
            res != Ok::<StepOutcome, Fault>(StepOutcome::Completed) ==> *final(self) == *old(self),
            old(self).wf() ==> final(self).wf(),
    {
        let random: u8 = if self.next_draws_random() {
            random_byte()
        } else {
            0
        };
        self.step(random)
    }
}

} // verus!
