//! Short programs run from start to end.

use chip8::{Chip8, Fault, StepOutcome};

fn loaded(program: &[u8]) -> Chip8 {
    let mut machine = Chip8::new();
    for (offset, byte) in program.iter().enumerate() {
        machine.memory[0x200 + offset] = *byte;
    }
    machine.program_counter = 0x200;
    machine
}

#[test]
fn load_then_add_immediate_gives_eight() {
    let mut machine = loaded(&[0x60, 0x05, 0x70, 0x03]);
    assert_eq!(machine.execute_cycle(), Ok(StepOutcome::Completed));
    assert_eq!(machine.registers[0], 5);
    assert_eq!(machine.program_counter, 0x202);
    assert_eq!(machine.execute_cycle(), Ok(StepOutcome::Completed));
    assert_eq!(machine.registers[0], 8);
    assert_eq!(machine.program_counter, 0x204);
}

#[test]
fn add_registers_wraps_and_sets_carry() {
    let mut machine = Chip8::new();
    machine.registers[0] = 250;
    machine.registers[1] = 10;
    assert_eq!(machine.process_opcode(0x8014, 0), Ok(StepOutcome::Completed));
    assert_eq!(machine.registers[0], 4);
    assert_eq!(machine.registers[1], 10);
    assert_eq!(machine.registers[0xF], 1);
    assert_eq!(machine.program_counter, 2);
}

#[test]
fn sprite_at_right_edge_wraps_to_left_edge() {
    let mut machine = Chip8::new();
    machine.memory[0x300] = 0xF0;
    machine.addr_register = 0x300;
    machine.registers[0] = 60;
    machine.registers[1] = 0;
    assert_eq!(machine.process_opcode(0xD011, 0), Ok(StepOutcome::Completed));
    for column in 0..64 {
        assert_eq!(machine.screen[0][column], column >= 60, "column {}", column);
    }
    for row in 1..32 {
        for column in 0..64 {
            assert!(!machine.screen[row][column]);
        }
    }
    assert_eq!(machine.registers[0xF], 0);
}

#[test]
fn full_sprite_row_at_right_edge_continues_on_the_left() {
    let mut machine = Chip8::new();
    machine.memory[0x300] = 0xFF;
    machine.addr_register = 0x300;
    machine.registers[0] = 60;
    machine.registers[1] = 0;
    assert_eq!(machine.process_opcode(0xD011, 0), Ok(StepOutcome::Completed));
    for column in 0..64 {
        assert_eq!(machine.screen[0][column], column >= 60 || column < 4, "column {}", column);
    }
}

#[test]
fn sprite_at_bottom_edge_continues_at_the_top() {
    let mut machine = Chip8::new();
    machine.memory[0x300] = 0x80;
    machine.memory[0x301] = 0x40;
    machine.addr_register = 0x300;
    machine.registers[2] = 5;
    machine.registers[3] = 31;
    assert_eq!(machine.process_opcode(0xD232, 0), Ok(StepOutcome::Completed));
    let mut lit = Vec::new();
    for row in 0..32 {
        for column in 0..64 {
            if machine.screen[row][column] {
                lit.push((row, column));
            }
        }
    }
    assert_eq!(lit, vec![(0, 6), (31, 5)]);
}

#[test]
fn coordinates_beyond_the_display_wrap() {
    let mut machine = Chip8::new();
    machine.memory[0x300] = 0x80;
    machine.addr_register = 0x300;
    machine.registers[0] = 64 + 3;
    machine.registers[1] = 32 * 7 + 2;
    assert_eq!(machine.process_opcode(0xD011, 0), Ok(StepOutcome::Completed));
    assert!(machine.screen[2][3]);
}

#[test]
fn seventeenth_call_overflows_and_changes_nothing() {
    let mut machine = Chip8::new();
    machine.program_counter = 0x200;
    for depth in 0..16u16 {
        let target = 0x300 + 2 * depth;
        assert_eq!(machine.process_opcode(0x2000 | target, 0), Ok(StepOutcome::Completed));
        assert_eq!(machine.program_counter, target);
        assert_eq!(machine.stack_pointer as u16, depth + 1);
    }
    assert_eq!(machine.stack[0], 0x202);
    assert_eq!(machine.stack[15], 0x300 + 2 * 14 + 2);
    let before = machine.clone();
    assert_eq!(machine.process_opcode(0x2400, 0), Err(Fault::StackOverflow));
    assert_eq!(machine, before);
}

#[test]
fn call_and_return_through_memory() {
    // 0x200: call 0x206; 0x202: V1 = 7; 0x206: V0 = 9; 0x208: return
    let mut machine = loaded(&[0x22, 0x06, 0x61, 0x07, 0x00, 0x00, 0x60, 0x09, 0x00, 0xEE]);
    assert_eq!(machine.execute_cycle(), Ok(StepOutcome::Completed));
    assert_eq!(machine.program_counter, 0x206);
    assert_eq!(machine.stack_pointer, 1);
    assert_eq!(machine.stack[0], 0x202);
    assert_eq!(machine.execute_cycle(), Ok(StepOutcome::Completed));
    assert_eq!(machine.registers[0], 9);
    assert_eq!(machine.execute_cycle(), Ok(StepOutcome::Completed));
    assert_eq!(machine.program_counter, 0x202);
    assert_eq!(machine.stack_pointer, 0);
    assert_eq!(machine.execute_cycle(), Ok(StepOutcome::Completed));
    assert_eq!(machine.registers[1], 7);
}

#[test]
fn countdown_loop_runs_to_its_end() {
    // V0 = 3; loop: V0 += 255 (minus one); skip if V0 == 0; jump loop; V1 = 1
    let mut machine = loaded(&[0x60, 0x03, 0x70, 0xFF, 0x30, 0x00, 0x12, 0x02, 0x61, 0x01]);
    let mut steps = 0;
    while machine.program_counter != 0x20A {
        assert_eq!(machine.step(0), Ok(StepOutcome::Completed));
        steps += 1;
        assert!(steps < 100);
    }
    assert_eq!(steps, 1 + 3 * 3 - 1 + 1);
    assert_eq!(machine.registers[0], 0);
    assert_eq!(machine.registers[1], 1);
}

#[test]
fn random_instruction_draws_from_the_generator() {
    let mut machine = loaded(&[0xC0, 0xFF, 0x12, 0x00]);
    let mut seen_nonzero = false;
    let mut seen = [false; 256];
    for _ in 0..4000 {
        assert_eq!(machine.execute_cycle(), Ok(StepOutcome::Completed));
        assert_eq!(machine.program_counter, 0x202);
        let value = machine.registers[0];
        seen[value as usize] = true;
        if value != 0 {
            seen_nonzero = true;
        }
        assert_eq!(machine.execute_cycle(), Ok(StepOutcome::Completed));
        assert_eq!(machine.program_counter, 0x200);
    }
    assert!(seen_nonzero);
    assert!(seen.iter().filter(|hit| **hit).count() > 200);
}

#[test]
fn random_instruction_masks_the_drawn_byte() {
    let mut machine = loaded(&[0xC3, 0x0F, 0x12, 0x00]);
    for _ in 0..500 {
        assert_eq!(machine.execute_cycle(), Ok(StepOutcome::Completed));
        assert!(machine.registers[3] <= 0x0F);
        assert_eq!(machine.execute_cycle(), Ok(StepOutcome::Completed));
    }
}

#[test]
fn execute_cycle_reports_fetch_beyond_memory() {
    let mut machine = Chip8::new();
    machine.program_counter = 4095;
    let before = machine.clone();
    assert_eq!(machine.execute_cycle(), Err(Fault::MemoryOutOfBounds));
    assert_eq!(machine, before);
}
