//! The machine state, and its mathematical model.

use vstd::prelude::*;

verus! {

/// Number of addressable bytes of memory.
pub const MEMORY_SIZE: usize = 4096;

/// Number of general registers, `V0` to `VF`.
pub const REGISTER_COUNT: usize = 16;

/// Number of return addresses the call stack holds.
pub const STACK_DEPTH: usize = 16;

/// Number of pixels in a display row.
pub const SCREEN_WIDTH: usize = 64;

/// Number of display rows.
pub const SCREEN_HEIGHT: usize = 32;

/// Number of logical key lines.
pub const KEY_COUNT: usize = 16;

/// Index of `VF`, the register that instructions use as carry, borrow and
/// collision flag.
pub const FLAG_REGISTER: usize = 15;

/// Width of one instruction in bytes.
pub const INSTRUCTION_WIDTH: u16 = 2;

/// How a step that did not fault ended.
#[derive(Clone, Copy, Debug, PartialEq, Eq)]
pub enum StepOutcome {
    /// The instruction was carried out and the program counter points to the
    /// instruction to fetch next.
    Completed,
    /// The instruction waits for a key and none is down: nothing was changed,
    /// and the same instruction is fetched again by the next step.
    AwaitingKey,
}

/// Why a step was refused. A refused step leaves the machine as it was.
#[derive(Clone, Copy, Debug, PartialEq, Eq)]
pub enum Fault {
    /// An instruction fetch or a data access reaches beyond the last byte of
    /// memory.
    MemoryOutOfBounds,
    /// A call with a full stack, or a stack pointer beyond the stack's depth.
    StackOverflow,
    /// A return with an empty stack.
    StackUnderflow,
}

/// The mathematical model of a machine: every array as a sequence.
#[verifier::ext_equal]
pub struct MachineState {
    pub stack: Seq<u16>,
    pub stack_pointer: u8,
    pub program_counter: u16,
    pub memory: Seq<u8>,
    pub registers: Seq<u8>,
    pub addr_register: u16,
    pub screen: Seq<Seq<bool>>,
    pub delay_timer: u8,
    pub sound_timer: u8,
    pub keys: Seq<bool>,
}

impl MachineState {
    /// Every sequence has the length of the array it stands for.
    pub open spec fn shaped(self) -> bool {
        &&& self.stack.len() == STACK_DEPTH
        &&& self.memory.len() == MEMORY_SIZE
        &&& self.registers.len() == REGISTER_COUNT
        &&& self.keys.len() == KEY_COUNT
        &&& self.screen.len() == SCREEN_HEIGHT
        &&& forall|r: int| 0 <= r < SCREEN_HEIGHT ==> (#[trigger] self.screen[r]).len() == SCREEN_WIDTH
    }

    /// The state is shaped and its stack pointer counts at most as many
    /// return addresses as the stack holds.
    pub open spec fn wf(self) -> bool {
        &&& self.shaped()
        &&& self.stack_pointer <= STACK_DEPTH
    }

    /// The state of a machine that was just made: everything zero, the
    /// display blank, no key down.
    pub open spec fn initial() -> MachineState {
        MachineState {
            stack: Seq::new(STACK_DEPTH as nat, |i: int| 0u16),
            stack_pointer: 0,
            program_counter: 0,
            memory: Seq::new(MEMORY_SIZE as nat, |i: int| 0u8),
            registers: Seq::new(REGISTER_COUNT as nat, |i: int| 0u8),
            addr_register: 0,
            screen: Seq::new(
                SCREEN_HEIGHT as nat,
                |r: int| Seq::new(SCREEN_WIDTH as nat, |c: int| false),
            ),
            delay_timer: 0,
            sound_timer: 0,
            keys: Seq::new(KEY_COUNT as nat, |i: int| false),
        }
    }

    /// The state after one tick of the 60 Hz clock: each timer one lower,
    /// unless it is zero already.
    pub open spec fn ticked(self) -> MachineState {
        MachineState {
            delay_timer: if self.delay_timer > 0 { (self.delay_timer - 1) as u8 } else { 0 },
            sound_timer: if self.sound_timer > 0 { (self.sound_timer - 1) as u8 } else { 0 },
            ..self
        }
    }
}

/// A CHIP-8 machine.
///
/// The fields are open to the host: it loads a program by writing `memory`,
/// reports the keys that are down in `keys`, and reads `screen` to draw it.
/// `stack_pointer` counts the return addresses on the stack; `stack` holds
/// them from index 0 up.
#[derive(Debug, PartialEq, Eq)]
pub struct Chip8 {
    pub stack: [u16; 16],
    pub stack_pointer: u8,
    pub program_counter: u16,
    pub memory: [u8; 4096],
    pub registers: [u8; 16],
    pub addr_register: u16,
    pub screen: [[bool; 64]; 32],
    pub delay_timer: u8,
    pub sound_timer: u8,
    pub keys: [bool; 16],
}

impl Clone for Chip8 {
    /// A second machine in the same state.
    fn clone(&self) -> (copy: Chip8)
        ensures
            copy == *self,
    {
        Chip8 {
            stack: self.stack,
            stack_pointer: self.stack_pointer,
            program_counter: self.program_counter,
            memory: self.memory,
            registers: self.registers,
            addr_register: self.addr_register,
            screen: self.screen,
            delay_timer: self.delay_timer,
            sound_timer: self.sound_timer,
            keys: self.keys,
        }
    }
}

impl View for Chip8 {
    type V = MachineState;

    open spec fn view(&self) -> MachineState {
        MachineState {
            stack: self.stack@,
            stack_pointer: self.stack_pointer,
            program_counter: self.program_counter,
            memory: self.memory@,
            registers: self.registers@,
            addr_register: self.addr_register,
            screen: Seq::new(SCREEN_HEIGHT as nat, |r: int| self.screen@[r]@),
            delay_timer: self.delay_timer,
            sound_timer: self.sound_timer,
            keys: self.keys@,
        }
    }
}

impl Chip8 {
    /// The machine's invariant: the stack pointer stays within the stack.
    pub open spec fn wf(&self) -> bool {
        self@.wf()
    }

    /// The model of any machine is shaped.
    pub proof fn lemma_view_shaped(&self)
        ensures
            self@.shaped(),
    {
    }

    /// A machine in its reset configuration.
    pub fn new() -> (machine: Chip8)
        ensures
            machine@ == MachineState::initial(),
            machine.wf(),
    {
        let machine = Chip8 {
            stack: [0; 16],
            stack_pointer: 0,
            program_counter: 0,
            memory: [0; 4096],
            registers: [0; 16],
            addr_register: 0,
            screen: [[false; 64]; 32],
            delay_timer: 0,
            sound_timer: 0,
            keys: [false; 16],
        };
        assert(machine@ =~~= MachineState::initial());
        machine
    }

    /// Puts the machine back into its reset configuration.
    pub fn reset(&mut self)
        ensures
            final(self)@ == MachineState::initial(),
            final(self).wf(),
    {
        *self = Chip8::new();
    }

    /// One tick of the external 60 Hz clock: lowers each timer that is not
    /// zero by one, and touches nothing else.
    pub fn tick_timers(&mut self)
        ensures
            final(self)@ == old(self)@.ticked(),
            old(self).wf() ==> final(self).wf(),
    {
        if self.delay_timer > 0 {
            self.delay_timer = self.delay_timer - 1;
        }
        if self.sound_timer > 0 {
            self.sound_timer = self.sound_timer - 1;
        }
    }
}

} // verus!
