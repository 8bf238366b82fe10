//! Decoding and executing one opcode, and the fetch/execute step.
use crate::cpu::Cpu;
use crate::random::random_byte;
use rand::rngs::ThreadRng;
use crate::semantics::{
    advance, any_pressed, bcd, can_fetch, exec_alu, exec_flow, exec_misc, exec_op, exec_skip,
    first_pressed, op_fault, op_kind, op_n, op_nn, op_nnn, op_outcome, op_x, op_y, opcode_at,
    set_v, Fault, Step, MEMORY_SIZE, STACK_DEPTH,
};
use vstd::prelude::*;

verus! {

/// The bit masks used to decode an opcode compute the fields of the model.
pub proof fn lemma_decode(op: u16)
    ensures
        (op & 0x0F00u16) >> 8u16 == op_x(op),
        (op & 0x00F0u16) >> 4u16 == op_y(op),
        op & 0x000Fu16 == op_n(op),
        op & 0x00FFu16 == op_nn(op),
        op & 0x0FFFu16 == op_nnn(op),
        op & 0xF000u16 == op_kind(op) * 4096,
        0 <= op_kind(op) < 16,
{
    assert((op & 0x0F00u16) >> 8u16 == (op / 256u16) % 16u16) by (bit_vector);
    assert((op & 0x00F0u16) >> 4u16 == (op / 16u16) % 16u16) by (bit_vector);
    assert(op & 0x000Fu16 == op % 16u16) by (bit_vector);
    assert(op & 0x00FFu16 == op % 256u16) by (bit_vector);
    assert(op & 0x0FFFu16 == op % 4096u16) by (bit_vector);
    assert(op & 0xF000u16 == (op / 4096u16) * 4096u16) by (bit_vector);
}

/// With `keys[k]` down and no lower key down, `k` is the first key down.
pub proof fn lemma_first_pressed(keys: Seq<bool>, k: int)
    requires
        0 <= k < 16,
        keys[k],
        forall|j: int| 0 <= j < k ==> !keys[j],
    ensures
        any_pressed(keys),
        first_pressed(keys) == k,
{
    assert(keys[k]);
    let f = first_pressed(keys);
    assert(0 <= f < 16 && keys[f] && forall|j: int| 0 <= j < f ==> !#[trigger] keys[j]);
    if f < k {
        assert(!keys[f]);
    }
    if f > k {
        assert(!keys[k]);
    }
}

impl Cpu {
    /// The opcode at the program counter, if two bytes of memory are there.
    pub fn fetch(&self) -> (op: Option<u16>)
        ensures
            op == (if can_fetch(self@) {
                Some(opcode_at(self@))
            } else {
                None::<u16>
            }),
    {
        if self.pc as usize + 1 >= MEMORY_SIZE {
            return None;
        }
        let hi = self.mem[self.pc as usize];
        let lo = self.mem[self.pc as usize + 1];
        assert((hi as u16) << 8u16 == hi as u16 * 256) by (bit_vector);
        Some(((hi as u16) << 8) + lo as u16)
    }

    /// Why `op` cannot run in the current state, if it cannot.
    pub fn fault(&self, op: u16) -> (f: Option<Fault>)
        ensures
            f == op_fault(self@, op),
    {
        proof {
            lemma_decode(op);
        }
        let kind = op & 0xF000;
        let x = ((op & 0x0F00) >> 8) as usize;
        let n = op & 0x000F;
        let nn = op & 0x00FF;
        let i = self.i as usize;
        if op == 0x00EE && self.sp == 0 {
            Some(Fault::StackUnderflow)
        } else if op == 0x00EE && self.sp > STACK_DEPTH {
            Some(Fault::StackOverflow)
        } else if kind == 0x2000 && self.sp >= STACK_DEPTH {
            Some(Fault::StackOverflow)
        } else if kind == 0x8000 && !(n <= 7 || n == 0xE) {
            Some(Fault::Unimplemented(op))
        } else if kind == 0xD000 && n > 0 && i + n as usize - 1 >= MEMORY_SIZE {
            Some(Fault::MemoryBounds)
        } else if kind == 0xE000 && (nn == 0x9E || nn == 0xA1) && self.v[x] >= 16 {
            Some(Fault::KeyOutOfRange)
        } else if kind == 0xF000 && nn == 0x1E && i + self.v[x] as usize > 0xFFFF {
            Some(Fault::IndexOverflow)
        } else if kind == 0xF000 && nn == 0x33 && i + 2 >= MEMORY_SIZE {
            Some(Fault::MemoryBounds)
        } else if kind == 0xF000 && (nn == 0x55 || nn == 0x65) && i + x >= MEMORY_SIZE {
            Some(Fault::MemoryBounds)
        } else {
            None
        }
    }

    /// Completes a key wait: with a key down, the lowest-numbered key down
    /// goes to register `register` and the result is `true`; otherwise
    /// nothing changes and the result is `false`.
    pub fn finish_key_wait(&mut self, register: usize) -> (found: bool)
        requires
            register < 16,
        ensures
            found == any_pressed(old(self)@.keys),
            found ==> final(self)@ == set_v(
                old(self)@,
                register as int,
                first_pressed(old(self)@.keys) as u8,
            ),
            !found ==> final(self)@ == old(self)@,
    {
        let mut k: usize = 0;
        while k < 16
            invariant
                k <= 16,
                register < 16,
                *self == *old(self),
                forall|j: int| 0 <= j < k ==> !self.keys_pressed@[j],
            decreases 16 - k,
        {
            if self.keys_pressed[k] {
                proof {
                    lemma_first_pressed(self.keys_pressed@, k as int);
                }
                self.v[register] = k as u8;
                return true;
            }
            k += 1;
        }
        assert(!any_pressed(self@.keys));
        false
    }

    /// `0nnn`, `1nnn`, `2nnn`, `Bnnn`.
    fn exec_flow_op(&mut self, op: u16)
        requires
            op_kind(op) == 0 || op_kind(op) == 1 || op_kind(op) == 2 || op_kind(op) == 0xB,
            op_fault(old(self)@, op) is None,
        ensures
            final(self)@ == exec_flow(old(self)@, op),
    {
        proof {
            lemma_decode(op);
        }
        let nnn = op & 0x0FFF;
        let kind = op & 0xF000;
        if kind == 0x0000 {
            if op == 0x00E0 {
                let mut col: usize = 0;
                while col < 64
                    invariant
                        col <= 64,
                        forall|a: int, b: int|
                            0 <= a < col && 0 <= b < 32 ==> !self.display@[a]@[b],
                        self@ == (crate::semantics::CpuState {
                            display: self@.display,
                            ..old(self)@
                        }),
                    decreases 64 - col,
                {
                    self.display[col] = [false; 32];
                    col += 1;
                }
                assert(self@.display =~~= crate::semantics::blank_display());
            } else if op == 0x00EE {
                self.pc = self.pop_stack();
            }
        } else if kind == 0x1000 {
            self.pc = nnn;
        } else if kind == 0x2000 {
            self.push_stack(self.pc);
            self.pc = nnn;
        } else {
            let mut addr = nnn;
            addr += self.v[0] as u16;
            self.pc = addr;
        }
    }

    /// `3xnn`, `4xnn`, `5xy_`, `9xy_`, `Exnn`.
    fn exec_skip_op(&mut self, op: u16)
        requires
            op_kind(op) == 3 || op_kind(op) == 4 || op_kind(op) == 5 || op_kind(op) == 9
                || op_kind(op) == 0xE,
            op_fault(old(self)@, op) is None,
            old(self).pc as int + 2 <= u16::MAX,
        ensures
            final(self)@ == exec_skip(old(self)@, op),
    {
        proof {
            lemma_decode(op);
        }
        let x = ((op & 0x0F00) >> 8) as usize;
        let y = ((op & 0x00F0) >> 4) as usize;
        let nn = (op & 0x00FF) as u8;
        let kind = op & 0xF000;
        if kind == 0x3000 {
            if self.v[x] == nn {
                self.pc += 2;
            }
        } else if kind == 0x4000 {
            if self.v[x] != nn {
                self.pc += 2;
            }
        } else if kind == 0x5000 {
            if self.v[x] == self.v[y] {
                self.pc += 2;
            }
        } else if kind == 0x9000 {
            if self.v[x] != self.v[y] {
                self.pc += 2;
            }
        } else if nn == 0x9E {
            if self.keys_pressed[self.v[x] as usize] {
                self.pc += 2;
            }
        } else if nn == 0xA1 {
            if !self.keys_pressed[self.v[x] as usize] {
                self.pc += 2;
            }
        }
    }

    /// `8xyN`.
    fn exec_alu_op(&mut self, op: u16)
        requires
            op_kind(op) == 8,
            op_fault(old(self)@, op) is None,
        ensures
            final(self)@ == exec_alu(old(self)@, op),
    {
        proof {
            lemma_decode(op);
        }
        let x = ((op & 0x0F00) >> 8) as usize;
        let y = ((op & 0x00F0) >> 4) as usize;
        let n = op & 0x000F;
        if n == 0 {
            self.v[x] = self.v[y];
        } else if n == 1 {
            self.v[x] = self.v[x] | self.v[y];
        } else if n == 2 {
            self.v[x] = self.v[x] & self.v[y];
        } else if n == 3 {
            self.v[x] = self.v[x] ^ self.v[y];
        } else if n == 4 {
            let sum = self.v[x] as u16 + self.v[y] as u16;
            if sum > 255 {
                self.v[0xF] = 1;
            } else {
                self.v[0xF] = 0;
            }
            self.v[x] = (sum % 256) as u8;
        } else if n == 5 {
            let reg_x = self.v[x];
            let reg_y = self.v[y];
            if reg_x > reg_y {
                self.v[0xF] = 1;
            } else {
                self.v[0xF] = 0;
            }
            self.v[x] = reg_x.wrapping_sub(reg_y);
        } else if n == 6 {
            let b = self.v[x];
            assert((b << 7u8) >> 7u8 == b % 2) by (bit_vector);
            self.v[0xF] = (self.v[x] << 7) >> 7;
            let c = self.v[x];
            assert(c >> 1u8 == c / 2) by (bit_vector);
            self.v[x] = self.v[x] >> 1;
        } else if n == 7 {
            let reg_x = self.v[x];
            let reg_y = self.v[y];
            if reg_y > reg_x {
                self.v[0xF] = 1;
            } else {
                self.v[0xF] = 0;
            }
            self.v[x] = reg_y.wrapping_sub(reg_x);
        } else {
            let b = self.v[x];
            assert(b >> 7u8 == b / 128) by (bit_vector);
            self.v[0xF] = self.v[x] >> 7;
            let c = self.v[x];
            assert(c << 1u8 == (c * 2) % 256) by (bit_vector);
            self.v[x] = self.v[x] << 1;
        }
        assert(self@.v =~= exec_alu(old(self)@, op).v);
    }

    /// `Fxnn`.
    fn exec_misc_op(&mut self, op: u16) -> (res: Step)
        requires
            op_kind(op) == 0xF,
            op_fault(old(self)@, op) is None,
        ensures
            final(self)@ == exec_misc(old(self)@, op),
            res == op_outcome(old(self)@, op),
    {
        proof {
            lemma_decode(op);
        }
        let x = ((op & 0x0F00) >> 8) as usize;
        let nn = (op & 0x00FF) as u8;
        if nn == 0x07 {
            self.v[x] = self.delay_timer;
        } else if nn == 0x15 {
            self.delay_timer = self.v[x];
        } else if nn == 0x18 {
            self.delay_timer = self.v[x];
        } else if nn == 0x1E {
            self.i += self.v[x] as u16;
            if self.i > 0x0FFF {
                self.v[0xF] = 1;
            }
        } else if nn == 0x0A {
            if !self.finish_key_wait(x) {
                return Step::AwaitKey(x);
            }
        } else if nn == 0x29 {
            let d = self.v[x];
            assert(d & 0x0Fu8 == d % 16) by (bit_vector);
            self.i = 0x50 + ((self.v[x] & 0x0F) * 5) as u16;
        } else if nn == 0x33 {
            let num = self.v[x];
            let num_hundreds = num / 100;
            let num_tens = (num - (num_hundreds * 100)) / 10;
            let num_ones = num - (num_hundreds * 100) - (num_tens * 10);
            assert(bcd(num) == (num_hundreds, num_tens, num_ones));
            self.mem[self.i as usize] = num_hundreds;
            self.mem[self.i as usize + 1] = num_tens;
            self.mem[self.i as usize + 2] = num_ones;
        } else if nn == 0x55 {
            let base = self.i as usize;
            let mut k: usize = 0;
            while k < x + 1
                invariant
                    x < 16,
                    base == old(self).i,
                    base + x < MEMORY_SIZE,
                    k <= x + 1,
                    forall|a: int|
                        0 <= a < 4096 ==> #[trigger] self.mem@[a] == if base <= a < base + k {
                            old(self).v@[a - base]
                        } else {
                            old(self).mem@[a]
                        },
                    self@ == (crate::semantics::CpuState { mem: self@.mem, ..old(self)@ }),
                decreases x + 1 - k,
            {
                self.mem[base + k] = self.v[k];
                k += 1;
            }
            assert(self@.mem =~= exec_misc(old(self)@, op).mem);
        } else if nn == 0x65 {
            let base = self.i as usize;
            let mut k: usize = 0;
            while k < x + 1
                invariant
                    x < 16,
                    base == old(self).i,
                    base + x < MEMORY_SIZE,
                    k <= x + 1,
                    forall|j: int|
                        0 <= j < 16 ==> #[trigger] self.v@[j] == if j < k {
                            old(self).mem@[base + j]
                        } else {
                            old(self).v@[j]
                        },
                    self@ == (crate::semantics::CpuState { v: self@.v, ..old(self)@ }),
                decreases x + 1 - k,
            {
                self.v[k] = self.mem[base + k];
                k += 1;
            }
            assert(self@.v =~= exec_misc(old(self)@, op).v);
        }
        Step::Done
    }

    /// Executes `op`, whose opcode the program counter has already passed,
    /// with `random` as the random byte of `Cxnn`.
    pub fn execute(&mut self, op: u16, random: u8) -> (res: Step)
        requires
            op_fault(old(self)@, op) is None,
            old(self).pc as int + 2 <= u16::MAX,
        ensures
            final(self)@ == exec_op(old(self)@, op, random),
            res == op_outcome(old(self)@, op),
    {
        proof {
            lemma_decode(op);
        }
        let x = ((op & 0x0F00) >> 8) as usize;
        let nn = (op & 0x00FF) as u8;
        let nnn = op & 0x0FFF;
        let kind = op & 0xF000;
        if kind == 0x0000 || kind == 0x1000 || kind == 0x2000 || kind == 0xB000 {
            self.exec_flow_op(op);
        } else if kind == 0x3000 || kind == 0x4000 || kind == 0x5000 || kind == 0x9000 || kind
            == 0xE000 {
            self.exec_skip_op(op);
        } else if kind == 0x6000 {
            self.v[x] = nn;
        } else if kind == 0x7000 {
            self.v[x] = self.v[x].wrapping_add(nn);
        } else if kind == 0x8000 {
            self.exec_alu_op(op);
        } else if kind == 0xA000 {
            self.i = nnn;
        } else if kind == 0xC000 {
            self.v[x] = random & nn;
        } else if kind == 0xD000 {
            self.exec_draw_op(op);
        } else {
            return self.exec_misc_op(op);
        }
        Step::Done
    }

    /// `op` writes the delay timer (`Fx15`, `Fx18`): the only opcodes
    /// whose effect the delay timer shows.
    pub fn writes_delay_timer(op: u16) -> (w: bool)
        ensures
            w == (op_kind(op) == 0xF && (op_nn(op) == 0x15 || op_nn(op) == 0x18)),
            !w ==> forall|s: crate::semantics::CpuState, r: u8|
                #![trigger exec_op(s, op, r)]
                op_fault(s, op) is None ==> exec_op(s, op, r).delay == s.delay,
    {
        proof {
            lemma_decode(op);
        }
        let nn = op & 0x00FF;
        op & 0xF000 == 0xF000 && (nn == 0x15 || nn == 0x18)
    }

    /// One machine cycle: fetch the opcode at the program counter, check
    /// that it can run, move past it and execute it. A random byte is drawn
    /// for `Cxnn` only. Without two bytes at the program counter nothing
    /// changes; an opcode that was fetched but cannot run leaves the machine
    /// moved past it and nothing else changed.
    pub fn step(&mut self, rng: &mut ThreadRng) -> (res: Step)
        ensures
            !can_fetch(old(self)@) ==> res == Step::Fault(Fault::ProgramCounter) && final(self)@
                == old(self)@,
            can_fetch(old(self)@) ==> match op_fault(old(self)@, opcode_at(old(self)@)) {
                Some(f) => res == Step::Fault(f) && final(self)@ == advance(old(self)@),
                None => res == op_outcome(advance(old(self)@), opcode_at(old(self)@)) && exists|
                    r: u8,
                | final(self)@ == #[trigger] exec_op(
                    advance(old(self)@),
                    opcode_at(old(self)@),
                    r,
                ),
            },
            can_fetch(old(self)@) && op_kind(opcode_at(old(self)@)) != 0xC && op_fault(
                old(self)@,
                opcode_at(old(self)@),
            ) is None ==> final(self)@ == exec_op(advance(old(self)@), opcode_at(old(self)@), 0),
    {
        let op = match self.fetch() {
            Some(op) => op,
            None => return Step::Fault(Fault::ProgramCounter),
        };
        self.pc += 2;
        if let Some(f) = self.fault(op) {
            return Step::Fault(f);
        }
        proof {
            lemma_decode(op);
        }
        let random = if op & 0xF000 == 0xC000 {
            random_byte(rng)
        } else {
            0
        };
        let res = self.execute(op, random);
        assert(self@ == exec_op(advance(old(self)@), op, random));
        res
    }
}

} // verus!
