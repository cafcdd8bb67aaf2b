//! Laws of the instruction set, proved of the model of
//! [`crate::semantics`]. Each speaks of every state and every instruction
//! word of the kind it names.

use vstd::prelude::*;
use crate::decode::decode_spec;
use crate::display::{drawn, lemma_draw_twice_restores, lemma_second_draw_erases, sprite_covers};
use crate::machine::{
    Fault, MachineState, StepOutcome, FLAG_REGISTER, MEMORY_SIZE, SCREEN_HEIGHT, SCREEN_WIDTH,
    STACK_DEPTH,
};
use crate::semantics::{
    at, completed, execute, fetchable, next, run, with_register, wrapped_sum, RETURN_WORD,
};

verus! {

/// Whether `word` is an add-immediate instruction, `7xkk`.
pub open spec fn is_add_immediate(word: u16) -> bool {
    decode_spec(word).family == 0x7
}

/// Whether `word` is the register instruction `8xy?` with `selector` as its
/// low four bits.
pub open spec fn is_alu(word: u16, selector: u8) -> bool {
    decode_spec(word).family == 0x8 && decode_spec(word).n == selector
}

/// Whether `word` is a draw instruction, `Dxyn`.
pub open spec fn is_draw(word: u16) -> bool {
    decode_spec(word).family == 0xD
}

/// Whether `word` is a call, `2nnn`.
pub open spec fn is_call(word: u16) -> bool {
    decode_spec(word).family == 0x2
}

/// Whether `word` is one of the four skip instructions `3xkk`, `4xkk`,
/// `5xy0` and `9xy0`.
pub open spec fn is_skip(word: u16) -> bool {
    let ops = decode_spec(word);
    ops.family == 0x3 || ops.family == 0x4 || ((ops.family == 0x5 || ops.family == 0x9) && ops.n
        == 0)
}

/// The condition under which the skip instruction `word` skips in state `s`.
pub open spec fn skip_condition(s: MachineState, word: u16) -> bool {
    let ops = decode_spec(word);
    let vx = s.registers[ops.x as int];
    let vy = s.registers[ops.y as int];
    if ops.family == 0x3 {
        vx == ops.kk
    } else if ops.family == 0x4 {
        vx != ops.kk
    } else if ops.family == 0x5 {
        vx == vy
    } else {
        vx != vy
    }
}

/// A step changes a shaped state into a shaped state, and keeps the stack
/// pointer within the stack if it was.
pub proof fn law_step_keeps_shape(s: MachineState, word: u16, random: u8)
    requires
        s.shaped(),
    ensures
        execute(s, word, random).state.shaped(),
        s.wf() ==> execute(s, word, random).state.wf(),
{
}

/// A step that is refused, and one that awaits a key, leaves the state as
/// it was.
pub proof fn law_only_completed_steps_change(s: MachineState, word: u16, random: u8)
    ensures
        execute(s, word, random).result != Ok::<StepOutcome, Fault>(StepOutcome::Completed)
            ==> execute(s, word, random).state == s,
{
}

/// The random byte matters to the random instruction `Cxkk` alone.
pub proof fn law_chance_only_in_random_instruction(s: MachineState, word: u16, one: u8, other: u8)
    requires
        decode_spec(word).family != 0xC,
    ensures
        execute(s, word, one) == execute(s, word, other),
{
}

/// Only a draw instruction changes the display, and only the two
/// timer-setting instructions change a timer.
pub proof fn law_display_and_timers_have_one_writer(s: MachineState, word: u16, random: u8)
    ensures
        !is_draw(word) ==> execute(s, word, random).state.screen == s.screen,
        !(decode_spec(word).family == 0xF && decode_spec(word).kk == 0x15) ==> execute(
            s,
            word,
            random,
        ).state.delay_timer == s.delay_timer,
        !(decode_spec(word).family == 0xF && decode_spec(word).kk == 0x18) ==> execute(
            s,
            word,
            random,
        ).state.sound_timer == s.sound_timer,
{
}

/// Reducing a sum to eight bits after each addition gives what reducing it
/// once at the end gives.
proof fn lemma_wrapped_sum_twice(start: u8, first: u8, second: u8)
    ensures
        wrapped_sum(wrapped_sum(start, first), second) == (start + first + second) % 256,
{
}

/// What one add-immediate instruction does where it can be fetched.
proof fn lemma_add_immediate(s: MachineState, word: u16, random: u8)
    requires
        is_add_immediate(word),
        fetchable(s),
    ensures
        execute(s, word, random) == completed(
            next(
                with_register(
                    s,
                    decode_spec(word).x as int,
                    wrapped_sum(s.registers[decode_spec(word).x as int], decode_spec(word).kk),
                ),
            ),
        ),
{
}

/// Two add-immediate instructions on the same register, one after the
/// other, leave in it the old value plus both immediates, modulo 256.
pub proof fn law_add_immediate_twice(s: MachineState, first: u16, second: u16, random: u8)
    requires
        s.shaped(),
        is_add_immediate(first),
        is_add_immediate(second),
        decode_spec(first).x == decode_spec(second).x,
        fetchable(s),
        fetchable(execute(s, first, random).state),
    ensures
        ({
            let x = decode_spec(first).x as int;
            let once = execute(s, first, random);
            let twice = execute(once.state, second, random);
            &&& once.result == Ok::<StepOutcome, Fault>(StepOutcome::Completed)
            &&& twice.result == Ok::<StepOutcome, Fault>(StepOutcome::Completed)
            &&& twice.state.registers[x] == (s.registers[x] + decode_spec(first).kk + decode_spec(
                second,
            ).kk) % 256
        }),
{
    let x = decode_spec(first).x as int;
    let once = execute(s, first, random);
    lemma_add_immediate(s, first, random);
    lemma_add_immediate(once.state, second, random);
    let start = s.registers[x];
    let middle = wrapped_sum(start, decode_spec(first).kk);
    assert(once.state.registers[x] == middle);
    lemma_wrapped_sum_twice(start, decode_spec(first).kk, decode_spec(second).kk);
}

/// `8xy4` leaves 1 in `VF` exactly when the sum of the two operands exceeds
/// 255, and 0 otherwise; unless `VF` is the result register itself, it
/// leaves the sum modulo 256 in `Vx`.
pub proof fn law_add_sets_carry(s: MachineState, word: u16, random: u8)
    requires
        s.shaped(),
        is_alu(word, 0x4),
        fetchable(s),
    ensures
        ({
            let ops = decode_spec(word);
            let vx = s.registers[ops.x as int];
            let vy = s.registers[ops.y as int];
            let after = execute(s, word, random).state;
            &&& after.registers[FLAG_REGISTER as int] == (if vx + vy > 255 {
                1u8
            } else {
                0u8
            })
            &&& ops.x != FLAG_REGISTER ==> after.registers[ops.x as int] == (vx + vy) % 256
        }),
{
}

/// `8xy5` with a result register other than `VF` leaves 1 in `VF` exactly
/// when `Vy` is greater than `Vx`, and `Vx - Vy` modulo 256 in `Vx`: with
/// equal operands the flag is 0 and the result is 0.
pub proof fn law_subtract_sets_borrow(s: MachineState, word: u16, random: u8)
    requires
        s.shaped(),
        is_alu(word, 0x5),
        decode_spec(word).x != FLAG_REGISTER,
        fetchable(s),
    ensures
        ({
            let ops = decode_spec(word);
            let vx = s.registers[ops.x as int];
            let vy = s.registers[ops.y as int];
            let after = execute(s, word, random).state;
            &&& after.registers[FLAG_REGISTER as int] == (if vy > vx {
                1u8
            } else {
                0u8
            })
            &&& after.registers[ops.x as int] == (vx - vy) % 256
            &&& vx == vy ==> after.registers[FLAG_REGISTER as int] == 0 && after.registers[ops.x as int]
                == 0
        }),
{
}

/// `8xy7` with a result register other than `VF` leaves 1 in `VF` exactly
/// when `Vx` is greater than `Vy`, and `Vy - Vx` modulo 256 in `Vx`: with
/// equal operands the flag is 0 and the result is 0.
pub proof fn law_reverse_subtract_sets_borrow(s: MachineState, word: u16, random: u8)
    requires
        s.shaped(),
        is_alu(word, 0x7),
        decode_spec(word).x != FLAG_REGISTER,
        fetchable(s),
    ensures
        ({
            let ops = decode_spec(word);
            let vx = s.registers[ops.x as int];
            let vy = s.registers[ops.y as int];
            let after = execute(s, word, random).state;
            &&& after.registers[FLAG_REGISTER as int] == (if vx > vy {
                1u8
            } else {
                0u8
            })
            &&& after.registers[ops.x as int] == (vy - vx) % 256
            &&& vx == vy ==> after.registers[FLAG_REGISTER as int] == 0 && after.registers[ops.x as int]
                == 0
        }),
{
}

/// A skip instruction changes the program counter and nothing else: it
/// moves it by two instruction widths where its condition holds and by one
/// where it does not.
pub proof fn law_skip_moves_one_extra_width(s: MachineState, word: u16, random: u8)
    requires
        is_skip(word),
        fetchable(s),
    ensures
        execute(s, word, random) == completed(
            at(
                s,
                s.program_counter + (if skip_condition(s, word) {
                    4int
                } else {
                    2int
                }),
            ),
        ),
        execute(s, word, random).state.program_counter == s.program_counter + (if skip_condition(
            s,
            word,
        ) {
            4int
        } else {
            2int
        }),
{
}

/// Drawing the same sprite twice at the same place restores the display,
/// and the second draw leaves 1 in `VF` exactly when the sprite covers a
/// cell that was dark before the first draw.
///
/// The place is the same when the first draw leaves `Vx` and `Vy` as they
/// were, which it always does unless one of them is `VF`.
pub proof fn law_draw_twice_restores_display(s: MachineState, word: u16, random: u8)
    requires
        s.shaped(),
        is_draw(word),
        fetchable(s),
        fetchable(execute(s, word, random).state),
        s.addr_register + decode_spec(word).n <= MEMORY_SIZE,
        execute(s, word, random).state.registers[decode_spec(word).x as int] == s.registers[decode_spec(
            word,
        ).x as int],
        execute(s, word, random).state.registers[decode_spec(word).y as int] == s.registers[decode_spec(
            word,
        ).y as int],
    ensures
        ({
            let ops = decode_spec(word);
            let sprite = s.memory.subrange(s.addr_register as int, s.addr_register + ops.n);
            let vx = s.registers[ops.x as int] as int;
            let vy = s.registers[ops.y as int] as int;
            let once = execute(s, word, random);
            let twice = execute(once.state, word, random);
            &&& once.result == Ok::<StepOutcome, Fault>(StepOutcome::Completed)
            &&& twice.result == Ok::<StepOutcome, Fault>(StepOutcome::Completed)
            &&& once.state.screen == drawn(s.screen, sprite, vx, vy)
            &&& twice.state.screen == s.screen
            &&& twice.state.registers[FLAG_REGISTER as int] == (if exists|r: int, c: int|
                0 <= r < SCREEN_HEIGHT && 0 <= c < SCREEN_WIDTH && !s.screen[r][c]
                    && #[trigger] sprite_covers(sprite, vx, vy, r, c) {
                1u8
            } else {
                0u8
            })
        }),
{
    let ops = decode_spec(word);
    let sprite = s.memory.subrange(s.addr_register as int, s.addr_register + ops.n);
    let vx = s.registers[ops.x as int] as int;
    let vy = s.registers[ops.y as int] as int;
    lemma_draw_twice_restores(s.screen, sprite, vx, vy);
    lemma_second_draw_erases(s.screen, sprite, vx, vy);
}

/// `count` return instructions.
pub open spec fn return_words(count: nat) -> Seq<u16> {
    Seq::new(count, |i: int| RETURN_WORD)
}

/// Whether every word of `words` is a call whose target leaves room in
/// memory for the instruction at the target and for the one after it.
pub open spec fn calls_within_memory(words: Seq<u16>) -> bool {
    forall|i: int|
        0 <= i < words.len() ==> is_call(#[trigger] words[i]) && decode_spec(words[i]).nnn + 3
            < MEMORY_SIZE
}

/// Whether `after` is `before` but for the program counter and for the
/// stack slots from `before`'s stack pointer up.
pub open spec fn same_below_stack_top(before: MachineState, after: MachineState) -> bool {
    &&& after == (MachineState {
        program_counter: after.program_counter,
        stack: after.stack,
        ..before
    })
    &&& after.stack.len() == before.stack.len()
    &&& forall|i: int| 0 <= i < before.stack_pointer ==> after.stack[i] == before.stack[i]
}

/// Running one sequence of words and then another is running the two in
/// one go.
pub proof fn lemma_run_in_two_parts(s: MachineState, head: Seq<u16>, tail: Seq<u16>, random: u8)
    ensures
        run(s, head + tail, random) == (if run(s, head, random).result == Ok::<
            StepOutcome,
            Fault,
        >(StepOutcome::Completed) {
            run(run(s, head, random).state, tail, random)
        } else {
            run(s, head, random)
        }),
    decreases head.len(),
{
    if head.len() == 0 {
        assert(head + tail =~= tail);
    } else {
        let first = execute(s, head[0], random);
        assert((head + tail)[0] == head[0]);
        assert((head + tail).drop_first() =~= head.drop_first() + tail);
        if first.result == Ok::<StepOutcome, Fault>(StepOutcome::Completed) {
            lemma_run_in_two_parts(first.state, head.drop_first(), tail, random);
        }
    }
}

/// What a call does where it can be fetched and the stack has room.
proof fn lemma_call(s: MachineState, word: u16, random: u8)
    requires
        is_call(word),
        fetchable(s),
        s.stack_pointer < STACK_DEPTH,
    ensures
        execute(s, word, random) == completed(
            MachineState {
                stack: s.stack.update(s.stack_pointer as int, (s.program_counter + 2) as u16),
                stack_pointer: (s.stack_pointer + 1) as u8,
                program_counter: decode_spec(word).nnn,
                ..s
            },
        ),
{
}

/// What a return does where it can be fetched and the stack holds an
/// address.
proof fn lemma_return(s: MachineState, random: u8)
    requires
        fetchable(s),
        0 < s.stack_pointer <= STACK_DEPTH,
    ensures
        execute(s, RETURN_WORD, random) == completed(
            MachineState {
                stack_pointer: (s.stack_pointer - 1) as u8,
                program_counter: s.stack[s.stack_pointer - 1],
                ..s
            },
        ),
{
}

/// Calls followed by as many returns come back: for a stack with room for
/// them, the run completes, the stack pointer is where it was, and the
/// program counter is on the instruction after the first call. Nothing else
/// has changed but the stack slots above the stack pointer, which hold the
/// return addresses that were pushed.
pub proof fn law_calls_then_returns(s: MachineState, calls: Seq<u16>, random: u8)
    requires
        s.shaped(),
        fetchable(s),
        calls_within_memory(calls),
        s.stack_pointer + calls.len() <= STACK_DEPTH,
    ensures
        ({
            let end = run(s, calls + return_words(calls.len()), random);
            &&& end.result == Ok::<StepOutcome, Fault>(StepOutcome::Completed)
            &&& end.state.stack_pointer == s.stack_pointer
            &&& end.state.program_counter == (if calls.len() == 0 {
                s.program_counter as int
            } else {
                s.program_counter + 2
            })
            &&& same_below_stack_top(s, end.state)
        }),
    decreases calls.len(),
{
    let count = calls.len();
    let words = calls + return_words(count);
    if count == 0 {
        assert(words =~= Seq::<u16>::empty());
    } else {
        let inner = calls.drop_first() + return_words((count - 1) as nat);
        let last = seq![RETURN_WORD];
        assert(words[0] == calls[0]);
        assert(words.drop_first() =~= inner + last);
        lemma_call(s, calls[0], random);
        let entered = execute(s, calls[0], random).state;
        assert(calls_within_memory(calls.drop_first())) by {
            assert forall|i: int| 0 <= i < calls.drop_first().len() implies is_call(
                #[trigger] calls.drop_first()[i],
            ) && decode_spec(calls.drop_first()[i]).nnn + 3 < MEMORY_SIZE by {
                assert(calls.drop_first()[i] == calls[i + 1]);
            }
        }
        law_calls_then_returns(entered, calls.drop_first(), random);
        let back = run(entered, inner, random);
        lemma_run_in_two_parts(entered, inner, last, random);
        lemma_return(back.state, random);
        let end = execute(back.state, RETURN_WORD, random);
        assert(last.drop_first() =~= Seq::<u16>::empty());
        assert(run(back.state, last, random) == end) by {
            assert(last[0] == RETURN_WORD);
            assert(run(end.state, last.drop_first(), random) == completed(end.state));
        }
        assert(run(s, words, random) == end);
        assert(back.state.stack[s.stack_pointer as int] == s.program_counter + 2);
    }
}

} // verus!
