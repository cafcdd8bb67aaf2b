//! What one instruction does to the machine, as functions on the model.
//!
//! An instruction reads its operands before it writes anything. Where it
//! writes twice (a result and the flag register) the writes happen in the
//! order in which they are listed here, so that with `VF` as the result
//! register the later write is the one that stays.

use vstd::prelude::*;
use crate::decode::{decode_spec, Operands};
use crate::display::{drawn, erases};
use crate::font::glyph_address;
use crate::machine::{
    Fault, MachineState, StepOutcome, FLAG_REGISTER, INSTRUCTION_WIDTH, KEY_COUNT, MEMORY_SIZE,
    STACK_DEPTH,
};

verus! {

/// The instruction word of a return from a subroutine.
pub const RETURN_WORD: u16 = 0x00EE;

/// A state together with the report of the step that led to it.
#[verifier::ext_equal]
pub struct Step {
    pub state: MachineState,
    pub result: Result<StepOutcome, Fault>,
}

/// A step that carried its instruction out and ended in `state`.
pub open spec fn completed(state: MachineState) -> Step {
    Step { state, result: Ok(StepOutcome::Completed) }
}

/// A step that was refused with `fault` and left `state` as it was.
pub open spec fn refused(state: MachineState, fault: Fault) -> Step {
    Step { state, result: Err(fault) }
}

/// A step that found no key down and left `state` as it was.
pub open spec fn awaiting(state: MachineState) -> Step {
    Step { state, result: Ok(StepOutcome::AwaitingKey) }
}

/// Whether an instruction can lie at the program counter: both of its bytes
/// are in memory.
pub open spec fn fetchable(s: MachineState) -> bool {
    s.program_counter + 1 < MEMORY_SIZE
}

/// `s` with the program counter at `target`.
pub open spec fn at(s: MachineState, target: int) -> MachineState {
    MachineState { program_counter: target as u16, ..s }
}

/// `s` with the program counter on the instruction that follows.
pub open spec fn next(s: MachineState) -> MachineState {
    at(s, s.program_counter + INSTRUCTION_WIDTH)
}

/// `s` with the program counter past the instruction that follows if `skip`
/// holds, and on it otherwise.
pub open spec fn next_skipping(s: MachineState, skip: bool) -> MachineState {
    if skip {
        at(s, s.program_counter + 2 * INSTRUCTION_WIDTH)
    } else {
        next(s)
    }
}

/// `s` with `value` in register `x`.
pub open spec fn with_register(s: MachineState, x: int, value: u8) -> MachineState {
    MachineState { registers: s.registers.update(x, value), ..s }
}

/// `s` with `VF` at 1 if `raised` holds and at 0 otherwise.
pub open spec fn with_flag(s: MachineState, raised: bool) -> MachineState {
    with_register(s, FLAG_REGISTER as int, if raised { 1u8 } else { 0u8 })
}

/// The sum of two register values, reduced to eight bits.
pub open spec fn wrapped_sum(a: u8, b: u8) -> u8 {
    ((a + b) % 256) as u8
}

/// The difference of two register values, reduced to eight bits.
pub open spec fn wrapped_difference(a: u8, b: u8) -> u8 {
    ((a - b) % 256) as u8
}

/// The arithmetic and logic family `8xy?`: the low four bits select the
/// operation, and a selector that names none changes nothing.
pub open spec fn alu(s: MachineState, ops: Operands) -> MachineState {
    let x = ops.x as int;
    let vx = s.registers[x];
    let vy = s.registers[ops.y as int];
    if ops.n == 0x0 {
        with_register(s, x, vy)
    } else if ops.n == 0x1 {
        with_register(s, x, vx | vy)
    } else if ops.n == 0x2 {
        with_register(s, x, vx & vy)
    } else if ops.n == 0x3 {
        with_register(s, x, vx ^ vy)
    } else if ops.n == 0x4 {
        with_flag(with_register(s, x, wrapped_sum(vx, vy)), vx + vy > 255)
    } else if ops.n == 0x5 {
        with_register(with_flag(s, vy > vx), x, wrapped_difference(vx, vy))
    } else if ops.n == 0x6 {
        with_register(with_flag(s, vx & 1 == 1), x, vx >> 1)
    } else if ops.n == 0x7 {
        with_register(with_flag(s, vx > vy), x, wrapped_difference(vy, vx))
    } else if ops.n == 0xE {
        with_register(with_flag(s, vx & 0x80 == 0x80), x, vx << 1)
    } else {
        s
    }
}

/// `2nnn`: pushes the address of the instruction after the call and goes to
/// `target`; refused when the stack is full.
pub open spec fn call(s: MachineState, target: u16) -> Step {
    if s.stack_pointer >= STACK_DEPTH {
        refused(s, Fault::StackOverflow)
    } else {
        completed(
            MachineState {
                stack: s.stack.update(
                    s.stack_pointer as int,
                    (s.program_counter + INSTRUCTION_WIDTH) as u16,
                ),
                stack_pointer: (s.stack_pointer + 1) as u8,
                program_counter: target,
                ..s
            },
        )
    }
}

/// `00EE`: pops the newest return address into the program counter; refused
/// when the stack is empty, and when the stack pointer lies beyond the stack.
pub open spec fn subroutine_return(s: MachineState) -> Step {
    if s.stack_pointer == 0 {
        refused(s, Fault::StackUnderflow)
    } else if s.stack_pointer > STACK_DEPTH {
        refused(s, Fault::StackOverflow)
    } else {
        completed(
            MachineState {
                stack_pointer: (s.stack_pointer - 1) as u8,
                program_counter: s.stack[s.stack_pointer - 1],
                ..s
            },
        )
    }
}

/// `Dxyn`: draws the `n` bytes from the address register on as a sprite at
/// `(Vx, Vy)` and reports in `VF` whether a lit cell went dark; refused when
/// the sprite does not lie in memory.
pub open spec fn draw(s: MachineState, ops: Operands) -> Step {
    let start = s.addr_register as int;
    let vx = s.registers[ops.x as int] as int;
    let vy = s.registers[ops.y as int] as int;
    if start + ops.n > MEMORY_SIZE {
        refused(s, Fault::MemoryOutOfBounds)
    } else {
        let sprite = s.memory.subrange(start, start + ops.n);
        completed(
            next(
                with_flag(
                    MachineState { screen: drawn(s.screen, sprite, vx, vy), ..s },
                    erases(s.screen, sprite, vx, vy),
                ),
            ),
        )
    }
}

/// Whether the key that `value` names is down. A value of 16 or more names
/// no key.
pub open spec fn key_down(keys: Seq<bool>, value: u8) -> bool {
    value < KEY_COUNT && keys[value as int]
}

/// Whether `key` is down and no key with a lower number is.
pub open spec fn is_lowest_key_down(keys: Seq<bool>, key: int) -> bool {
    &&& 0 <= key < KEY_COUNT
    &&& keys[key]
    &&& forall|lower: int| 0 <= lower < key ==> !keys[lower]
}

/// The key with the lowest number among those that are down.
pub open spec fn lowest_key_down(keys: Seq<bool>) -> Option<u8> {
    if exists|key: int| is_lowest_key_down(keys, key) {
        Some((choose|key: int| is_lowest_key_down(keys, key)) as u8)
    } else {
        None
    }
}

/// Memory with the registers `V0` to `V(count - 1)` stored from `start` on.
pub open spec fn registers_stored(memory: Seq<u8>, registers: Seq<u8>, start: int, count: int) -> Seq<u8> {
    Seq::new(
        memory.len(),
        |a: int|
            if start <= a < start + count {
                registers[a - start]
            } else {
                memory[a]
            },
    )
}

/// The registers with `V0` to `V(count - 1)` loaded from memory at `start`
/// on.
pub open spec fn registers_loaded(registers: Seq<u8>, memory: Seq<u8>, start: int, count: int) -> Seq<u8> {
    Seq::new(
        registers.len(),
        |k: int|
            if k < count {
                memory[start + k]
            } else {
                registers[k]
            },
    )
}

/// Memory with the hundreds, tens and units of `value` in the three bytes
/// from `start` on.
pub open spec fn decimal_stored(memory: Seq<u8>, start: int, value: u8) -> Seq<u8> {
    memory.update(start, value / 100).update(start + 1, (value / 10) % 10).update(
        start + 2,
        value % 10,
    )
}

/// The timer, key and memory family `Fx??`: the low byte selects the
/// operation, and a selector that names none changes nothing.
pub open spec fn misc(s: MachineState, ops: Operands) -> Step {
    let x = ops.x as int;
    let vx = s.registers[x];
    let start = s.addr_register as int;
    if ops.kk == 0x07 {
        completed(next(with_register(s, x, s.delay_timer)))
    } else if ops.kk == 0x0A {
        match lowest_key_down(s.keys) {
            Some(key) => completed(next(with_register(s, x, key))),
            None => awaiting(s),
        }
    } else if ops.kk == 0x15 {
        completed(next(MachineState { delay_timer: vx, ..s }))
    } else if ops.kk == 0x18 {
        completed(next(MachineState { sound_timer: vx, ..s }))
    } else if ops.kk == 0x1E {
        completed(next(MachineState { addr_register: ((start + vx) % 0x10000) as u16, ..s }))
    } else if ops.kk == 0x29 {
        completed(next(MachineState { addr_register: glyph_address(vx), ..s }))
    } else if ops.kk == 0x33 {
        if start + 2 >= MEMORY_SIZE {
            refused(s, Fault::MemoryOutOfBounds)
        } else {
            completed(next(MachineState { memory: decimal_stored(s.memory, start, vx), ..s }))
        }
    } else if ops.kk == 0x55 {
        if start + x >= MEMORY_SIZE {
            refused(s, Fault::MemoryOutOfBounds)
        } else {
            completed(
                next(
                    MachineState {
                        memory: registers_stored(s.memory, s.registers, start, x + 1),
                        ..s
                    },
                ),
            )
        }
    } else if ops.kk == 0x65 {
        if start + x >= MEMORY_SIZE {
            refused(s, Fault::MemoryOutOfBounds)
        } else {
            completed(
                next(
                    MachineState {
                        registers: registers_loaded(s.registers, s.memory, start, x + 1),
                        ..s
                    },
                ),
            )
        }
    } else {
        completed(next(s))
    }
}

/// The effect of the instruction `word`, taken to lie at the program
/// counter, with `random` as the byte that the random instruction draws.
///
/// A word that matches no instruction changes nothing but the program
/// counter, which goes on to the next instruction.
pub open spec fn execute(s: MachineState, word: u16, random: u8) -> Step {
    let ops = decode_spec(word);
    let x = ops.x as int;
    let vx = s.registers[x];
    let vy = s.registers[ops.y as int];
    if !fetchable(s) {
        refused(s, Fault::MemoryOutOfBounds)
    } else if ops.family == 0x0 {
        if word == RETURN_WORD {
            subroutine_return(s)
        } else {
            completed(next(s))
        }
    } else if ops.family == 0x1 {
        completed(at(s, ops.nnn as int))
    } else if ops.family == 0x2 {
        call(s, ops.nnn)
    } else if ops.family == 0x3 {
        completed(next_skipping(s, vx == ops.kk))
    } else if ops.family == 0x4 {
        completed(next_skipping(s, vx != ops.kk))
    } else if ops.family == 0x5 {
        completed(next_skipping(s, ops.n == 0 && vx == vy))
    } else if ops.family == 0x6 {
        completed(next(with_register(s, x, ops.kk)))
    } else if ops.family == 0x7 {
        completed(next(with_register(s, x, wrapped_sum(vx, ops.kk))))
    } else if ops.family == 0x8 {
        completed(next(alu(s, ops)))
    } else if ops.family == 0x9 {
        completed(next_skipping(s, ops.n == 0 && vx != vy))
    } else if ops.family == 0xA {
        completed(next(MachineState { addr_register: ops.nnn, ..s }))
    } else if ops.family == 0xB {
        completed(at(s, s.registers[0] + ops.nnn))
    } else if ops.family == 0xC {
        completed(next(with_register(s, x, random & ops.kk)))
    } else if ops.family == 0xD {
        draw(s, ops)
    } else if ops.family == 0xE {
        if ops.kk == 0x9E {
            completed(next_skipping(s, key_down(s.keys, vx)))
        } else if ops.kk == 0xA1 {
            completed(next_skipping(s, !key_down(s.keys, vx)))
        } else {
            completed(next(s))
        }
    } else {
        misc(s, ops)
    }
}

/// The instruction word at the program counter, high byte first; refused
/// when its second byte would lie beyond memory.
pub open spec fn fetch(s: MachineState) -> Result<u16, Fault> {
    if fetchable(s) {
        Ok(
            (s.memory[s.program_counter as int] * 0x100 + s.memory[s.program_counter
                + 1]) as u16,
        )
    } else {
        Err(Fault::MemoryOutOfBounds)
    }
}

/// One step of the machine: fetch the word at the program counter and
/// execute it.
pub open spec fn step(s: MachineState, random: u8) -> Step {
    match fetch(s) {
        Ok(word) => execute(s, word, random),
        Err(fault) => refused(s, fault),
    }
}

/// Whether the next step draws a random byte: the word at the program
/// counter is a random instruction.
pub open spec fn draws_random(s: MachineState) -> bool {
    match fetch(s) {
        Ok(word) => decode_spec(word).family == 0xC,
        Err(_) => false,
    }
}

/// The instruction words `words` executed one after the other, each taken
/// to lie at the program counter that the one before it left, with `random`
/// as the byte of every random instruction among them. The run ends at the
/// first step that does not complete, with the state and the report of that
/// step.
pub open spec fn run(s: MachineState, words: Seq<u16>, random: u8) -> Step
    decreases words.len(),
{
    if words.len() == 0 {
        completed(s)
    } else {
        let first = execute(s, words[0], random);
        if first.result == Ok::<StepOutcome, Fault>(StepOutcome::Completed) {
            run(first.state, words.drop_first(), random)
        } else {
            first
        }
    }
}

} // verus!
