//! The mathematical model of the machine: its state as sequences and
//! integers, how an opcode is decoded, when an instruction cannot run,
//! and what each instruction does to the state.
use vstd::prelude::*;

verus! {

/// Number of bytes of addressable memory.
pub const MEMORY_SIZE: usize = 4096;

/// Address at which programs are loaded and execution starts.
pub const PROGRAM_START: u16 = 0x200;

/// Address at which the hexadecimal font is placed.
pub const FONT_START: u16 = 0x50;

/// Width of the screen in pixels.
pub const SCREEN_WIDTH: usize = 64;

/// Height of the screen in pixels.
pub const SCREEN_HEIGHT: usize = 32;

/// Number of entries of the return-address stack.
pub const STACK_DEPTH: usize = 16;

/// The built-in hexadecimal digit sprites, five rows each, `0` to `F`.
pub const FONT: [u8; 80] = [
    0xF0, 0x90, 0x90, 0x90, 0xF0,  // 0
    0x20, 0x60, 0x20, 0x20, 0x70,  // 1
    0xF0, 0x10, 0xF0, 0x80, 0xF0,  // 2
    0xF0, 0x10, 0xF0, 0x10, 0xF0,  // 3
    0x90, 0x90, 0xF0, 0x10, 0x10,  // 4
    0xF0, 0x80, 0xF0, 0x10, 0xF0,  // 5
    0xF0, 0x80, 0xF0, 0x90, 0xF0,  // 6
    0xF0, 0x10, 0x20, 0x40, 0x40,  // 7
    0xF0, 0x90, 0xF0, 0x90, 0xF0,  // 8
    0xF0, 0x90, 0xF0, 0x10, 0xF0,  // 9
    0xF0, 0x90, 0xF0, 0x90, 0x90,  // A
    0xE0, 0x90, 0xE0, 0x90, 0xE0,  // B
    0xF0, 0x80, 0x80, 0x80, 0xF0,  // C
    0xE0, 0x90, 0x90, 0x90, 0xE0,  // D
    0xF0, 0x80, 0xF0, 0x80, 0xF0,  // E
    0xF0, 0x80, 0xF0, 0x80, 0x80,  // F
];

/// Why an instruction cannot be carried out.
#[derive(PartialEq, Eq, Structural, Debug, Clone, Copy)]
pub enum Fault {
    /// The program counter does not leave room for a two-byte opcode.
    ProgramCounter,
    /// A subroutine call with all stack entries in use, or a return with a
    /// stack pointer beyond the stack.
    StackOverflow,
    /// A return with an empty stack.
    StackUnderflow,
    /// The instruction reads or writes memory beyond the last address.
    MemoryBounds,
    /// Adding a register to the index register overflows sixteen bits.
    IndexOverflow,
    /// A key instruction names a key number above fifteen.
    KeyOutOfRange,
    /// An arithmetic opcode (`8xyN`) with a selector that has no meaning.
    Unimplemented(u16),
}

/// What the machine needs after an instruction.
#[derive(PartialEq, Eq, Structural, Debug, Clone, Copy)]
pub enum Step {
    /// The instruction completed.
    Done,
    /// `Fx0A` found no key pressed: the key number goes to register `x`
    /// once a key is down.
    AwaitKey(usize),
    /// The instruction could not run; the state is unchanged.
    Fault(Fault),
}

/// The machine state, as mathematical values.
pub struct CpuState {
    pub mem: Seq<u8>,
    /// Column-major: `display[x][y]` is the pixel in column `x`, row `y`.
    pub display: Seq<Seq<bool>>,
    pub pc: u16,
    pub i: u16,
    pub delay: u8,
    pub sound: u8,
    pub v: Seq<u8>,
    pub sp: usize,
    pub stack: Seq<u16>,
    pub keys: Seq<bool>,
}

/// The sizes that every machine state has.
pub open spec fn well_shaped(s: CpuState) -> bool {
    &&& s.mem.len() == MEMORY_SIZE
    &&& s.display.len() == SCREEN_WIDTH
    &&& forall|a: int| 0 <= a < SCREEN_WIDTH ==> (#[trigger] s.display[a]).len() == SCREEN_HEIGHT
    &&& s.v.len() == 16
    &&& s.stack.len() == STACK_DEPTH
    &&& s.keys.len() == 16
}

// ----- loading -----
/// `s` with the font copied to memory from `FONT_START`.
pub open spec fn with_font(s: CpuState) -> CpuState {
    CpuState { mem: s.mem.subrange(0, 80) + FONT@ + s.mem.subrange(160, 4096), ..s }
}

/// `s` with `program` copied to memory from `PROGRAM_START`.
pub open spec fn with_program(s: CpuState, program: Seq<u8>) -> CpuState {
    CpuState {
        mem: s.mem.subrange(0, 0x200) + program + s.mem.subrange(0x200 + program.len() as int, 4096),
        ..s
    }
}

// ----- the return-address stack -----
/// `s` with `value` pushed on the stack.
pub open spec fn pushed(s: CpuState, value: u16) -> CpuState {
    CpuState { stack: s.stack.update(s.sp as int, value), sp: (s.sp + 1) as usize, ..s }
}

/// `s` with the top of the stack dropped.
pub open spec fn popped(s: CpuState) -> CpuState {
    CpuState { sp: (s.sp - 1) as usize, ..s }
}

/// The top of the stack.
pub open spec fn stack_top(s: CpuState) -> u16 {
    s.stack[s.sp - 1]
}

// ----- decoding -----
/// The instruction class: the top four bits.
pub open spec fn op_kind(op: u16) -> int {
    op as int / 4096
}

/// The first register operand: bits 8 to 11.
pub open spec fn op_x(op: u16) -> int {
    (op as int / 256) % 16
}

/// The second register operand: bits 4 to 7.
pub open spec fn op_y(op: u16) -> int {
    (op as int / 16) % 16
}

/// The low four bits.
pub open spec fn op_n(op: u16) -> int {
    op as int % 16
}

/// The low byte.
pub open spec fn op_nn(op: u16) -> u8 {
    (op as int % 256) as u8
}

/// The low twelve bits: an address.
pub open spec fn op_nnn(op: u16) -> u16 {
    (op as int % 4096) as u16
}

/// The opcode stored big-endian at the program counter.
pub open spec fn opcode_at(s: CpuState) -> u16 {
    (s.mem[s.pc as int] as int * 256 + s.mem[s.pc as int + 1] as int) as u16
}

/// There are two bytes of memory at the program counter.
pub open spec fn can_fetch(s: CpuState) -> bool {
    s.pc as int + 1 < MEMORY_SIZE as int
}

/// The state with the program counter moved past the current opcode.
pub open spec fn advance(s: CpuState) -> CpuState {
    CpuState { pc: (s.pc + 2) as u16, ..s }
}

// ----- small state updates -----
pub open spec fn set_v(s: CpuState, k: int, val: u8) -> CpuState {
    CpuState { v: s.v.update(k, val), ..s }
}

/// Skip the next instruction when `cond` holds.
pub open spec fn skip_if(s: CpuState, cond: bool) -> CpuState {
    if cond {
        CpuState { pc: (s.pc + 2) as u16, ..s }
    } else {
        s
    }
}

pub open spec fn blank_display() -> Seq<Seq<bool>> {
    Seq::new(SCREEN_WIDTH as nat, |a: int| Seq::new(SCREEN_HEIGHT as nat, |b: int| false))
}

/// Some key is down.
pub open spec fn any_pressed(keys: Seq<bool>) -> bool {
    exists|k: int| 0 <= k < 16 && #[trigger] keys[k]
}

/// The lowest-numbered key that is down (meaningful when one is).
pub open spec fn first_pressed(keys: Seq<bool>) -> int {
    choose|k: int| 0 <= k < 16 && keys[k] && forall|j: int| 0 <= j < k ==> !#[trigger] keys[j]
}

// ----- faults -----
/// Why `op` cannot run in state `s`, if it cannot. Independent of the
/// program counter.
pub open spec fn op_fault(s: CpuState, op: u16) -> Option<Fault> {
    let kind = op_kind(op);
    let x = op_x(op);
    let n = op_n(op);
    let nn = op_nn(op);
    if op == 0x00EE && s.sp == 0 {
        Some(Fault::StackUnderflow)
    } else if op == 0x00EE && s.sp > STACK_DEPTH {
        Some(Fault::StackOverflow)
    } else if kind == 2 && s.sp >= STACK_DEPTH {
        Some(Fault::StackOverflow)
    } else if kind == 8 && !(0 <= n <= 7 || n == 0xE) {
        Some(Fault::Unimplemented(op))
    } else if kind == 0xD && n > 0 && s.i as int + n - 1 >= MEMORY_SIZE as int {
        Some(Fault::MemoryBounds)
    } else if kind == 0xE && (nn == 0x9E || nn == 0xA1) && s.v[x] >= 16 {
        Some(Fault::KeyOutOfRange)
    } else if kind == 0xF && nn == 0x1E && s.i as int + s.v[x] as int > 0xFFFF {
        Some(Fault::IndexOverflow)
    } else if kind == 0xF && nn == 0x33 && s.i as int + 2 >= MEMORY_SIZE as int {
        Some(Fault::MemoryBounds)
    } else if kind == 0xF && (nn == 0x55 || nn == 0x65) && s.i as int + x >= MEMORY_SIZE as int {
        Some(Fault::MemoryBounds)
    } else {
        None
    }
}

// ----- instruction semantics -----
/// `0nnn`, `1nnn`, `2nnn`, `Bnnn`: screen clear and control flow.
pub open spec fn exec_flow(s: CpuState, op: u16) -> CpuState {
    let kind = op_kind(op);
    if kind == 0 {
        if op == 0x00E0 {
            CpuState { display: blank_display(), ..s }
        } else if op == 0x00EE {
            CpuState { pc: stack_top(s), ..popped(s) }
        } else {
            s
        }
    } else if kind == 1 {
        CpuState { pc: op_nnn(op), ..s }
    } else if kind == 2 {
        CpuState { pc: op_nnn(op), ..pushed(s, s.pc) }
    } else {
        CpuState { pc: (op_nnn(op) + s.v[0]) as u16, ..s }
    }
}

/// `3xnn`, `4xnn`, `5xy_`, `9xy_`, `Ex9E`, `ExA1`: conditional skips.
pub open spec fn exec_skip(s: CpuState, op: u16) -> CpuState {
    let kind = op_kind(op);
    let vx = s.v[op_x(op)];
    let vy = s.v[op_y(op)];
    if kind == 3 {
        skip_if(s, vx == op_nn(op))
    } else if kind == 4 {
        skip_if(s, vx != op_nn(op))
    } else if kind == 5 {
        skip_if(s, vx == vy)
    } else if kind == 9 {
        skip_if(s, vx != vy)
    } else if op_nn(op) == 0x9E {
        skip_if(s, s.keys[vx as int])
    } else if op_nn(op) == 0xA1 {
        skip_if(s, !s.keys[vx as int])
    } else {
        s
    }
}

/// `8xyN`: register arithmetic. The flag register is written before the
/// destination, so with `x == 15` the result overwrites the flag.
pub open spec fn exec_alu(s: CpuState, op: u16) -> CpuState {
    let x = op_x(op);
    let vx = s.v[x];
    let vy = s.v[op_y(op)];
    let n = op_n(op);
    if n == 0 {
        set_v(s, x, vy)
    } else if n == 1 {
        set_v(s, x, vx | vy)
    } else if n == 2 {
        set_v(s, x, vx & vy)
    } else if n == 3 {
        set_v(s, x, vx ^ vy)
    } else if n == 4 {
        let sum = vx as int + vy as int;
        set_v(set_v(s, 15, if sum > 255 { 1 } else { 0 }), x, (sum % 256) as u8)
    } else if n == 5 {
        set_v(set_v(s, 15, if vx > vy { 1 } else { 0 }), x, ((vx - vy + 256) % 256) as u8)
    } else if n == 6 {
        let t = set_v(s, 15, vx % 2);
        set_v(t, x, t.v[x] / 2)
    } else if n == 7 {
        set_v(set_v(s, 15, if vy > vx { 1 } else { 0 }), x, ((vy - vx + 256) % 256) as u8)
    } else {
        let t = set_v(s, 15, vx / 128);
        set_v(t, x, ((t.v[x] * 2) % 256) as u8)
    }
}

/// Bit `k` (0 is the least significant) of `byte` is set.
pub open spec fn bit_set(byte: u8, k: int) -> bool {
    byte & (1u8 << (k as u8)) != 0
}

/// Pixel `(a, b)` is covered by a set bit of the `n`-row sprite read from
/// `mem[i..]` and drawn with its top-left corner at `(cx, cy)`, wrapping
/// around both edges of the screen. The most significant bit of a sprite
/// row is its leftmost pixel.
pub open spec fn sprite_hit(mem: Seq<u8>, i: int, n: int, cx: int, cy: int, a: int, b: int) -> bool {
    let c = (a - cx) % 64;
    let r = (b - cy) % 32;
    &&& c < 8
    &&& r < n
    &&& bit_set(mem[i + r], 7 - c)
}

/// The collision flag of a draw: some covered pixel was lit.
pub open spec fn sprite_collides(
    mem: Seq<u8>,
    display: Seq<Seq<bool>>,
    i: int,
    n: int,
    cx: int,
    cy: int,
) -> bool {
    exists|a: int, b: int|
        0 <= a < 64 && 0 <= b < 32 && #[trigger] sprite_hit(mem, i, n, cx, cy, a, b)
            && display[a][b]
}

/// `Dxyn`: flip every pixel covered by the sprite; the flag register is
/// 1 if a lit pixel was turned off, else 0. The coordinates are read after
/// the flag register has been cleared.
pub open spec fn exec_draw(s: CpuState, op: u16) -> CpuState {
    let t = set_v(s, 15, 0);
    let cx = t.v[op_x(op)] as int % 64;
    let cy = t.v[op_y(op)] as int % 32;
    let n = op_n(op);
    CpuState {
        display: Seq::new(
            64,
            |a: int| Seq::new(32, |b: int| s.display[a][b] != sprite_hit(s.mem, s.i as int, n, cx, cy, a, b)),
        ),
        v: s.v.update(
            15,
            if sprite_collides(s.mem, s.display, s.i as int, n, cx, cy) {
                1
            } else {
                0
            },
        ),
        ..s
    }
}

/// The decimal digits of `num`: hundreds, tens, ones.
pub open spec fn bcd(num: u8) -> (u8, u8, u8) {
    ((num / 100) as u8, ((num % 100) / 10) as u8, (num % 10) as u8)
}

/// `Fxnn`: timers, index register, key wait, memory transfers.
pub open spec fn exec_misc(s: CpuState, op: u16) -> CpuState {
    let x = op_x(op);
    let vx = s.v[x];
    let nn = op_nn(op);
    let i = s.i as int;
    if nn == 0x07 {
        set_v(s, x, s.delay)
    } else if nn == 0x15 || nn == 0x18 {
        // `Fx18` writes the delay timer too: the sound timer is only ever
        // counted down.
        CpuState { delay: vx, ..s }
    } else if nn == 0x1E {
        let t = CpuState { i: (i + vx) as u16, ..s };
        if i + vx > 0xFFF {
            set_v(t, 15, 1)
        } else {
            t
        }
    } else if nn == 0x0A {
        if any_pressed(s.keys) {
            set_v(s, x, first_pressed(s.keys) as u8)
        } else {
            s
        }
    } else if nn == 0x29 {
        CpuState { i: (FONT_START + (vx % 16) * 5) as u16, ..s }
    } else if nn == 0x33 {
        let (h, t, o) = bcd(vx);
        CpuState { mem: s.mem.update(i, h).update(i + 1, t).update(i + 2, o), ..s }
    } else if nn == 0x55 {
        CpuState {
            mem: Seq::new(
                s.mem.len(),
                |a: int|
                    if i <= a <= i + x {
                        s.v[a - i]
                    } else {
                        s.mem[a]
                    },
            ),
            ..s
        }
    } else if nn == 0x65 {
        CpuState {
            v: Seq::new(
                s.v.len(),
                |k: int|
                    if k <= x {
                        s.mem[i + k]
                    } else {
                        s.v[k]
                    },
            ),
            ..s
        }
    } else {
        s
    }
}

/// The effect of `op` on `s` (whose program counter is already past `op`),
/// with `random` as the random byte of `Cxnn`.
pub open spec fn exec_op(s: CpuState, op: u16, random: u8) -> CpuState {
    let kind = op_kind(op);
    if kind == 0 || kind == 1 || kind == 2 || kind == 0xB {
        exec_flow(s, op)
    } else if kind == 3 || kind == 4 || kind == 5 || kind == 9 || kind == 0xE {
        exec_skip(s, op)
    } else if kind == 6 {
        set_v(s, op_x(op), op_nn(op))
    } else if kind == 7 {
        set_v(s, op_x(op), ((s.v[op_x(op)] + op_nn(op)) % 256) as u8)
    } else if kind == 8 {
        exec_alu(s, op)
    } else if kind == 0xA {
        CpuState { i: op_nnn(op), ..s }
    } else if kind == 0xC {
        set_v(s, op_x(op), random & op_nn(op))
    } else if kind == 0xD {
        exec_draw(s, op)
    } else {
        exec_misc(s, op)
    }
}

/// What the machine needs after `op`.
pub open spec fn op_outcome(s: CpuState, op: u16) -> Step {
    if op_kind(op) == 0xF && op_nn(op) == 0x0A && !any_pressed(s.keys) {
        Step::AwaitKey(op_x(op) as usize)
    } else {
        Step::Done
    }
}

} // verus!
