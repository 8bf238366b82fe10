//! The interpreter's machine: registers, memory, screen, timers and keypad,
//! with the operations that set it up and the fetch/decode/execute step.
use crate::semantics::{
    blank_display, popped, pushed, stack_top, well_shaped, with_font, with_program, CpuState, FONT,
    MEMORY_SIZE, PROGRAM_START, STACK_DEPTH,
};
use vstd::prelude::*;

verus! {

/// The machine. The screen is column-major: `display[x][y]`.
#[derive(Debug)]
pub struct Cpu {
    pub mem: [u8; 4096],
    pub display: [[bool; 32]; 64],
    pub pc: u16,
    pub i: u16,
    pub delay_timer: u8,
    pub sound_timer: u8,
    pub v: [u8; 16],
    pub sp: usize,
    pub stack: [u16; 16],
    pub keys_pressed: [bool; 16],
}

pub open spec fn display_view(d: [[bool; 32]; 64]) -> Seq<Seq<bool>> {
    Seq::new(64, |a: int| d@[a]@)
}

impl View for Cpu {
    type V = CpuState;

    open spec fn view(&self) -> CpuState {
        CpuState {
            mem: self.mem@,
            display: display_view(self.display),
            pc: self.pc,
            i: self.i,
            delay: self.delay_timer,
            sound: self.sound_timer,
            v: self.v@,
            sp: self.sp,
            stack: self.stack@,
            keys: self.keys_pressed@,
        }
    }
}

/// Every machine state has the sizes of its arrays.
pub proof fn lemma_well_shaped(cpu: Cpu)
    ensures
        well_shaped(cpu@),
{
    assert forall|a: int| 0 <= a < 64 implies (#[trigger] cpu@.display[a]).len() == 32 by {
        assert(cpu@.display[a] == cpu.display@[a]@);
    }
}

impl Cpu {
    /// A machine with zeroed memory and registers, a blank screen, no key
    /// down, and the program counter at the program start.
    pub fn new() -> (cpu: Cpu)
        ensures
            cpu@.mem == Seq::new(4096, |k: int| 0u8),
            cpu@.display == blank_display(),
            cpu@.pc == PROGRAM_START,
            cpu@.i == 0,
            cpu@.delay == 0,
            cpu@.sound == 0,
            cpu@.v == Seq::new(16, |k: int| 0u8),
            cpu@.sp == 0,
            cpu@.stack == Seq::new(16, |k: int| 0u16),
            cpu@.keys == Seq::new(16, |k: int| false),
    {
        let cpu = Cpu {
            mem: [0u8; 4096],
            display: [[false; 32]; 64],
            pc: PROGRAM_START,
            i: 0,
            delay_timer: 0,
            sound_timer: 0,
            v: [0u8; 16],
            sp: 0,
            stack: [0u16; 16],
            keys_pressed: [false; 16],
        };
        assert(cpu@.mem =~= Seq::new(4096, |k: int| 0u8));
        assert(cpu@.display =~~= blank_display());
        assert(cpu@.v =~= Seq::new(16, |k: int| 0u8));
        assert(cpu@.stack =~= Seq::new(16, |k: int| 0u16));
        assert(cpu@.keys =~= Seq::new(16, |k: int| false));
        cpu
    }

    /// Copies the font into memory from `FONT_START`; nothing else changes.
    pub fn load_font(&mut self)
        ensures
            final(self)@ == with_font(old(self)@),
    {
        for index in 0..80
            invariant
                forall|k: int| 0 <= k < 80 ==> self.mem@[k] == old(self).mem@[k],
                forall|k: int| 0 <= k < index ==> self.mem@[80 + k] == FONT@[k],
                forall|k: int| 80 + index <= k < 4096 ==> self.mem@[k] == old(self).mem@[k],
                self@ == (CpuState { mem: self.mem@, ..old(self)@ }),
        {
            self.mem[index + 80] = FONT[index];
        }
        assert(self.mem@ =~= old(self)@.mem.subrange(0, 80) + FONT@ + old(self)@.mem.subrange(
            160,
            4096,
        ));
    }

    /// Copies `program` into memory from `PROGRAM_START`; nothing else
    /// changes.
    pub fn load_program(&mut self, program: &[u8])
        requires
            program@.len() <= MEMORY_SIZE - PROGRAM_START,
        ensures
            final(self)@ == with_program(old(self)@, program@),
    {
        let len = program.len();
        for k in 0..len
            invariant
                len == program@.len(),
                len <= 4096 - 0x200,
                forall|a: int| 0 <= a < 0x200 ==> self.mem@[a] == old(self).mem@[a],
                forall|a: int| 0 <= a < k ==> self.mem@[0x200 + a] == program@[a],
                forall|a: int| 0x200 + k <= a < 4096 ==> self.mem@[a] == old(self).mem@[a],
                self@ == (CpuState { mem: self.mem@, ..old(self)@ }),
        {
            self.mem[0x200 + k] = program[k];
        }
        assert(self.mem@ =~= old(self)@.mem.subrange(0, 0x200) + program@ + old(
            self,
        )@.mem.subrange(0x200 + program@.len() as int, 4096));
    }

    /// Pushes a return address.
    pub fn push_stack(&mut self, value: u16)
        requires
            old(self).sp < STACK_DEPTH,
        ensures
            final(self)@ == pushed(old(self)@, value),
    {
        self.sp += 1;
        self.stack[self.sp - 1] = value;
    }

    /// Pops the most recent return address.
    pub fn pop_stack(&mut self) -> (value: u16)
        requires
            0 < old(self).sp <= STACK_DEPTH,
        ensures
            value == stack_top(old(self)@),
            final(self)@ == popped(old(self)@),
    {
        self.sp -= 1;
        self.stack[self.sp]
    }
}

} // verus!
