//! Properties of the machine that relate several operations, proved over
//! the model that the operations' contracts are stated in.
use crate::display::{key_event, key_under, lemma_keypad_unique, KEYPAD};
use crate::semantics::{
    any_pressed, can_fetch, op_nnn, Fault, exec_draw, exec_misc, exec_op, exec_skip, op_fault, op_kind, op_n, op_nn, op_x,
    op_y, opcode_at, popped, pushed, stack_top, well_shaped, with_font, with_program, CpuState,
    FONT, FONT_START, PROGRAM_START, sprite_collides, sprite_hit,
};
use crate::timers::ticked_times;
use vstd::prelude::*;

verus! {

/// Drawing the same sprite at the same place twice leaves the screen as it
/// was: a draw flips pixels, and the second draw reads the same sprite and
/// the same coordinates as the first.
pub proof fn law_draw_twice_restores(s: CpuState, op: u16)
    requires
        well_shaped(s),
        op_kind(op) == 0xD,
    ensures
        exec_draw(exec_draw(s, op), op).display == s.display,
        exec_draw(exec_draw(s, op), op).mem == s.mem,
{
    let t = exec_draw(s, op);
    assert(t.v.update(15, 0u8) =~= s.v.update(15, 0u8));
    let u = exec_draw(t, op);
    assert(u.display =~~= s.display);
}

/// A return taken while the entry that a call pushed is still on top of
/// the stack resumes at the instruction after the call, with the stack
/// pointer the call found. `s` is the state after the call's opcode was
/// fetched, `u` the state when the return runs.
pub proof fn law_return_resumes_after_call(s: CpuState, call: u16, u: CpuState, r1: u8, r2: u8)
    requires
        well_shaped(s),
        op_kind(call) == 2,
        op_fault(s, call) is None,
        u.sp == exec_op(s, call, r1).sp,
        stack_top(u) == stack_top(exec_op(s, call, r1)),
        op_fault(u, 0x00EE) is None,
    ensures
        exec_op(u, 0x00EE, r2).pc == s.pc,
        exec_op(u, 0x00EE, r2).sp == s.sp,
{
}

/// A call followed at once by a return comes back to the instruction after
/// the call with the stack pointer restored.
pub proof fn law_call_then_return(s: CpuState, call: u16, r1: u8, r2: u8)
    requires
        well_shaped(s),
        op_kind(call) == 2,
        op_fault(s, call) is None,
    ensures
        exec_op(exec_op(s, call, r1), 0x00EE, r2).pc == s.pc,
        exec_op(exec_op(s, call, r1), 0x00EE, r2).sp == s.sp,
{
    let t = exec_op(s, call, r1);
    assert(op_fault(t, 0x00EE) is None);
    law_return_resumes_after_call(s, call, t, r1, r2);
}

/// Popping right after a push gives back the pushed value and the stack
/// pointer from before the push; only the slot above the stack keeps it.
pub proof fn law_pop_undoes_push(s: CpuState, value: u16)
    requires
        well_shaped(s),
        s.sp < 16,
    ensures
        stack_top(pushed(s, value)) == value,
        popped(pushed(s, value)) == (CpuState { stack: s.stack.update(s.sp as int, value), ..s }),
{
}

/// Storing registers `0..=x` from the index address and loading them back
/// from that address leaves the registers as they were.
pub proof fn law_store_then_load(s: CpuState, store: u16, load: u16)
    requires
        well_shaped(s),
        op_kind(store) == 0xF && op_nn(store) == 0x55,
        op_kind(load) == 0xF && op_nn(load) == 0x65,
        op_x(store) == op_x(load),
        s.i + op_x(store) < 4096,
    ensures
        exec_misc(exec_misc(s, store), load).v == s.v,
{
    let t = exec_misc(s, store);
    assert(exec_misc(t, load).v =~= s.v);
}

/// Loading registers `0..=x` from the index address and storing them back
/// there leaves memory as it was.
pub proof fn law_load_then_store(s: CpuState, load: u16, store: u16)
    requires
        well_shaped(s),
        op_kind(store) == 0xF && op_nn(store) == 0x55,
        op_kind(load) == 0xF && op_nn(load) == 0x65,
        op_x(store) == op_x(load),
        s.i + op_x(store) < 4096,
    ensures
        exec_misc(exec_misc(s, load), store).mem == s.mem,
{
    let t = exec_misc(s, load);
    assert(exec_misc(t, store).mem =~= s.mem);
}

/// `Fx33` writes the decimal digits of register `x`: each below ten, and
/// together worth the register's value.
pub proof fn law_bcd_digits(s: CpuState, op: u16)
    requires
        well_shaped(s),
        op_kind(op) == 0xF && op_nn(op) == 0x33,
        s.i + 2 < 4096,
    ensures
        ({
            let m = exec_misc(s, op).mem;
            let i = s.i as int;
            &&& m[i] < 10 && m[i + 1] < 10 && m[i + 2] < 10
            &&& m[i] * 100 + m[i + 1] * 10 + m[i + 2] == s.v[op_x(op)]
        }),
{
}

/// Once the font is loaded, `Fx29` points the index register at the five
/// rows of the sprite for the low digit of register `x`.
pub proof fn law_font_sprite(s: CpuState, op: u16)
    requires
        well_shaped(s),
        op_kind(op) == 0xF && op_nn(op) == 0x29,
    ensures
        ({
            let t = exec_misc(with_font(s), op);
            let d = s.v[op_x(op)] % 16;
            &&& t.i == FONT_START + 5 * d
            &&& t.mem.subrange(t.i as int, t.i + 5) == FONT@.subrange(5 * d, 5 * d + 5)
        }),
{
    let t = exec_misc(with_font(s), op);
    let d = s.v[op_x(op)] % 16;
    assert(t.mem == with_font(s).mem);
    assert(t.mem.subrange(t.i as int, t.i + 5) =~= FONT@.subrange(5 * d, 5 * d + 5));
}

/// `8xy4` with `x` other than the flag register: the sum is the result
/// plus 256 times the carry.
pub proof fn law_add_carry(s: CpuState, op: u16)
    requires
        well_shaped(s),
        op_kind(op) == 8 && op_n(op) == 4,
        op_x(op) != 15,
    ensures
        ({
            let t = exec_op(s, op, 0);
            t.v[op_x(op)] + 256 * t.v[15] == s.v[op_x(op)] + s.v[op_y(op)]
        }),
{
}

/// `8xy5` with `x` other than the flag register and unequal operands: the
/// result plus the subtrahend is the minuend, plus 256 when the flag shows
/// a borrow (flag 0). With equal operands the flag is 0 and the result 0,
/// so the equation fails there.
pub proof fn law_sub_borrow(s: CpuState, op: u16)
    requires
        well_shaped(s),
        op_kind(op) == 8 && op_n(op) == 5,
        op_x(op) != 15,
        s.v[op_x(op)] != s.v[op_y(op)],
    ensures
        ({
            let t = exec_op(s, op, 0);
            t.v[op_x(op)] + s.v[op_y(op)] == s.v[op_x(op)] + 256 * (1 - t.v[15])
        }),
{
}

/// Of two complementary skips on the same operands (`3xnn`/`4xnn`,
/// `5xy_`/`9xy_`, `Ex9E`/`ExA1`), exactly one skips.
pub proof fn law_skips_complementary(s: CpuState, skip: u16, other: u16)
    requires
        well_shaped(s),
        s.pc + 2 <= 0xFFFF,
        op_x(skip) == op_x(other),
        ({
            ||| op_kind(skip) == 3 && op_kind(other) == 4 && op_nn(skip) == op_nn(other)
            ||| op_kind(skip) == 5 && op_kind(other) == 9 && op_y(skip) == op_y(other)
            ||| op_kind(skip) == 0xE && op_kind(other) == 0xE && op_nn(skip) == 0x9E && op_nn(
                other,
            ) == 0xA1 && s.v[op_x(skip)] < 16
        }),
    ensures
        (exec_skip(s, skip).pc == s.pc + 2) != (exec_skip(s, other).pc == s.pc + 2),
        exec_skip(s, skip).pc == s.pc || exec_skip(s, skip).pc == s.pc + 2,
        exec_skip(s, other).pc == s.pc || exec_skip(s, other).pc == s.pc + 2,
{
}

/// Only `Fx33` and `Fx55` write memory.
pub proof fn law_memory_frame(s: CpuState, op: u16, random: u8)
    requires
        well_shaped(s),
        op_fault(s, op) is None,
        !(op_kind(op) == 0xF && (op_nn(op) == 0x33 || op_nn(op) == 0x55)),
    ensures
        exec_op(s, op, random).mem == s.mem,
{
}

/// The font area and the program area do not overlap: loading the font
/// and loading a program commute.
pub proof fn law_loads_commute(s: CpuState, program: Seq<u8>)
    requires
        well_shaped(s),
        program.len() <= 4096 - 0x200,
    ensures
        with_program(with_font(s), program) == with_font(with_program(s, program)),
{
    assert(with_program(with_font(s), program).mem =~= with_font(with_program(s, program)).mem);
}

/// After a program is loaded, the machine at the program start fetches the
/// program's first two bytes as its first opcode.
pub proof fn law_program_runs_first(s: CpuState, program: Seq<u8>)
    requires
        well_shaped(s),
        s.pc == PROGRAM_START,
        2 <= program.len() <= 4096 - 0x200,
    ensures
        can_fetch(with_program(s, program)),
        opcode_at(with_program(s, program)) == (program[0] as int * 256 + program[1] as int) as u16,
{
    let m = with_program(s, program).mem;
    assert(m[0x200] == program[0]);
    assert(m[0x201] == program[1]);
}

/// A timer that ticks `n` times counts down by `n`, stopping at zero.
pub proof fn law_timer_countdown(value: u8, n: nat)
    ensures
        ticked_times(value, n) == if n >= value {
            0
        } else {
            value - n
        },
    decreases n,
{
    if n > 0 {
        law_timer_countdown(value, (n - 1) as nat);
    }
}

/// The sixteen keypad keys sit under sixteen different keyboard keys.
pub proof fn law_keypad_distinct()
    ensures
        forall|j: int, k: int| 0 <= j < 16 && 0 <= k < 16 && j != k ==> KEYPAD@[j] != KEYPAD@[k],
{
    assert(KEYPAD@ =~= seq!['x', '1', '2', '3', 'q', 'w', 'e', 'a', 's', 'd', 'z', 'c', '4', 'r', 'f', 'v']);
}

/// A key event sets the keypad key under the keyboard key and leaves the
/// other keypad keys alone; a release undoes a press.
pub proof fn law_key_event(keys: Seq<bool>, key: char, k: int, pressed: bool)
    requires
        keys.len() == 16,
        key_under(key, k),
    ensures
        key_event(keys, key, pressed)[k] == pressed,
        forall|j: int| 0 <= j < 16 && j != k ==> key_event(keys, key, pressed)[j] == keys[j],
        !keys[k] ==> key_event(key_event(keys, key, true), key, false) == keys,
{
    lemma_keypad_unique(key, k);
    assert(!keys[k] ==> key_event(key_event(keys, key, true), key, false) =~= keys);
}

// ----- what single instructions do, stated by their inputs and results -----
/// Bit `k` of `byte` (0 is the least significant).
pub open spec fn bit(byte: u8, k: u8) -> bool {
    (byte >> k) & 1u8 == 1u8
}

/// Pixel `(a, b)` was lit before and is dark after.
pub open spec fn turned_off(before: Seq<Seq<bool>>, after: Seq<Seq<bool>>, a: int, b: int) -> bool {
    before[a][b] && !after[a][b]
}

/// The registers other than `x` and the flag register are the same.
pub open spec fn others_kept(s: CpuState, t: CpuState, x: int) -> bool {
    forall|k: int| 0 <= k < 15 && k != x ==> #[trigger] t.v[k] == s.v[k]
}

/// `Dxyn` reports a collision exactly when it turned a lit pixel off: the
/// flag register is 1 if some pixel lit before the draw is dark after it,
/// and 0 otherwise. Memory, index and the other registers are untouched.
pub proof fn law_draw_collision_flag(s: CpuState, op: u16, random: u8)
    requires
        well_shaped(s),
        op_kind(op) == 0xD,
    ensures
        ({
            let t = exec_op(s, op, random);
            &&& t.v[15] == if exists|a: int, b: int|
                0 <= a < 64 && 0 <= b < 32 && #[trigger] turned_off(s.display, t.display, a, b) {
                1u8
            } else {
                0u8
            }
            &&& others_kept(s, t, 15)
            &&& t.mem == s.mem
            &&& t.i == s.i
            &&& t.pc == s.pc
        }),
{
    let t = exec_op(s, op, random);
    let u = s.v.update(15, 0u8);
    let cx = u[op_x(op)] as int % 64;
    let cy = u[op_y(op)] as int % 32;
    let n = op_n(op);
    let coll = sprite_collides(s.mem, s.display, s.i as int, n, cx, cy);
    let off = exists|a: int, b: int|
        0 <= a < 64 && 0 <= b < 32 && #[trigger] turned_off(s.display, t.display, a, b);
    if coll {
        let (a, b) = choose|a: int, b: int|
            0 <= a < 64 && 0 <= b < 32 && #[trigger] sprite_hit(s.mem, s.i as int, n, cx, cy, a, b)
                && s.display[a][b];
        assert(turned_off(s.display, t.display, a, b));
    }
    if off {
        let (a, b) = choose|a: int, b: int|
            0 <= a < 64 && 0 <= b < 32 && #[trigger] turned_off(s.display, t.display, a, b);
        assert(sprite_hit(s.mem, s.i as int, n, cx, cy, a, b) && s.display[a][b]);
    }
}

/// `Cxnn` keeps exactly the bits of the random byte that are set in `nn`:
/// bit `k` of the result is set iff it is set in both. The other registers
/// are untouched.
pub proof fn law_random_masked(s: CpuState, op: u16, random: u8)
    requires
        well_shaped(s),
        op_kind(op) == 0xC,
    ensures
        ({
            let t = exec_op(s, op, random);
            let res = t.v[op_x(op)];
            &&& forall|k: u8| k < 8 ==> #[trigger] bit(res, k) == (bit(random, k) && bit(op_nn(op), k))
            &&& forall|k: int| 0 <= k < 16 && k != op_x(op) ==> #[trigger] t.v[k] == s.v[k]
        }),
{
    let t = exec_op(s, op, random);
    let nn = op_nn(op);
    let res = t.v[op_x(op)];
    assert(res == random & nn);
    assert(forall|a: u8, b: u8, k: u8| k < 8 ==> (((a & b) >> k) & 1u8 == 1u8 <==> ((a >> k) & 1u8 == 1u8 && (b >> k) & 1u8 == 1u8))) by (bit_vector);
}

/// `8xy6` shifts right with the bit shifted out in the flag: for `x` other
/// than the flag register, twice the result plus the flag is the old value
/// and the flag is 0 or 1. For `x` = 15 the flag register ends up 0.
pub proof fn law_shift_right(s: CpuState, op: u16)
    requires
        well_shaped(s),
        op_kind(op) == 8 && op_n(op) == 6,
    ensures
        ({
            let t = exec_op(s, op, 0);
            let x = op_x(op);
            &&& x != 15 ==> t.v[x] * 2 + t.v[15] == s.v[x] && t.v[15] <= 1
            &&& x == 15 ==> t.v[15] == 0
            &&& others_kept(s, t, x)
        }),
{
}

/// `8xyE` shifts left with the bit shifted out in the flag: for `x` other
/// than the flag register, the flag times 256 plus the result is twice the
/// old value and the flag is 0 or 1. For `x` = 15 the flag register ends up
/// twice the old top bit.
pub proof fn law_shift_left(s: CpuState, op: u16)
    requires
        well_shaped(s),
        op_kind(op) == 8 && op_n(op) == 0xE,
    ensures
        ({
            let t = exec_op(s, op, 0);
            let x = op_x(op);
            &&& x != 15 ==> t.v[15] * 256 + t.v[x] == s.v[x] * 2 && t.v[15] <= 1
            &&& x == 15 ==> t.v[15] == 2 * (s.v[15] / 128)
            &&& others_kept(s, t, x)
        }),
{
}

/// `8xy0`..`8xy3` combine the registers bit by bit (copy, or, and, xor) and
/// leave the flag register alone unless it is the destination.
pub proof fn law_register_logic(s: CpuState, op: u16)
    requires
        well_shaped(s),
        op_kind(op) == 8 && 0 <= op_n(op) <= 3,
    ensures
        ({
            let t = exec_op(s, op, 0);
            let x = op_x(op);
            let vx = s.v[x];
            let vy = s.v[op_y(op)];
            &&& forall|k: u8|
                k < 8 ==> #[trigger] bit(t.v[x], k) == if op_n(op) == 0 {
                    bit(vy, k)
                } else if op_n(op) == 1 {
                    bit(vx, k) || bit(vy, k)
                } else if op_n(op) == 2 {
                    bit(vx, k) && bit(vy, k)
                } else {
                    bit(vx, k) != bit(vy, k)
                }
            &&& forall|k: int| 0 <= k < 16 && k != x ==> #[trigger] t.v[k] == s.v[k]
        }),
{
    assert(forall|a: u8, b: u8, k: u8| k < 8 ==> (((a | b) >> k) & 1u8 == 1u8 <==> ((a >> k) & 1u8 == 1u8 || (b >> k) & 1u8 == 1u8))) by (bit_vector);
    assert(forall|a: u8, b: u8, k: u8| k < 8 ==> (((a & b) >> k) & 1u8 == 1u8 <==> ((a >> k) & 1u8 == 1u8 && (b >> k) & 1u8 == 1u8))) by (bit_vector);
    assert(forall|a: u8, b: u8, k: u8| k < 8 ==> (((a ^ b) >> k) & 1u8 == 1u8 <==> ((a >> k) & 1u8 == 1u8) != ((b >> k) & 1u8 == 1u8))) by (bit_vector);
}

/// `8xy7` subtracts the other way: for `x` other than the flag register and
/// unequal operands, the result plus `Vx` is `Vy`, plus 256 when the flag is
/// 0. With equal operands the result and the flag are both 0.
pub proof fn law_reverse_sub_borrow(s: CpuState, op: u16)
    requires
        well_shaped(s),
        op_kind(op) == 8 && op_n(op) == 7,
        op_x(op) != 15,
    ensures
        ({
            let t = exec_op(s, op, 0);
            let vx = s.v[op_x(op)];
            let vy = s.v[op_y(op)];
            &&& vx != vy ==> t.v[op_x(op)] + vx == vy + 256 * (1 - t.v[15])
            &&& vx == vy ==> t.v[op_x(op)] == 0 && t.v[15] == 0
            &&& t.v[15] <= 1
            &&& others_kept(s, t, op_x(op))
        }),
{
}

/// `8xy5` with equal operands gives 0 and a flag of 0, and the flag is
/// always 0 or 1.
pub proof fn law_sub_equal_operands(s: CpuState, op: u16)
    requires
        well_shaped(s),
        op_kind(op) == 8 && op_n(op) == 5,
        op_x(op) != 15,
    ensures
        ({
            let t = exec_op(s, op, 0);
            &&& s.v[op_x(op)] == s.v[op_y(op)] ==> t.v[op_x(op)] == 0 && t.v[15] == 0
            &&& t.v[15] <= 1
            &&& others_kept(s, t, op_x(op))
        }),
{
}

/// `7xnn` adds without touching the flag: the result is `Vx + nn` less 256
/// when that overflows a byte.
pub proof fn law_add_immediate(s: CpuState, op: u16)
    requires
        well_shaped(s),
        op_kind(op) == 7,
    ensures
        ({
            let t = exec_op(s, op, 0);
            let x = op_x(op);
            let sum = s.v[x] + op_nn(op);
            &&& t.v[x] == sum || t.v[x] == sum - 256
            &&& forall|k: int| 0 <= k < 16 && k != x ==> #[trigger] t.v[k] == s.v[k]
        }),
{
}

/// Which opcodes fault: an `8xyN` with `N` in `0..=7` or `E` always runs, and
/// `Unimplemented` is reported exactly for the other `8xyN`. Every other
/// opcode runs whenever what it touches is in range.
pub proof fn law_fault_conditions(s: CpuState, op: u16)
    requires
        well_shaped(s),
    ensures
        op_kind(op) == 8 && (0 <= op_n(op) <= 7 || op_n(op) == 0xE) ==> op_fault(s, op) is None,
        (op_fault(s, op) == Some(Fault::Unimplemented(op))) == (op_kind(op) == 8 && !(0
            <= op_n(op) <= 7 || op_n(op) == 0xE)),
        match op_fault(s, op) {
            Some(Fault::Unimplemented(c)) => c == op,
            _ => true,
        },
        op_kind(op) == 2 && s.sp < 16 ==> op_fault(s, op) is None,
        op == 0x00EE && 0 < s.sp <= 16 ==> op_fault(s, op) is None,
        op_kind(op) == 0xD && s.i + op_n(op) <= 4096 ==> op_fault(s, op) is None,
        op_kind(op) == 0xE && s.v[op_x(op)] < 16 ==> op_fault(s, op) is None,
        op_kind(op) == 0xF && op_nn(op) == 0x1E && s.i + s.v[op_x(op)] <= 0xFFFF ==> op_fault(
            s,
            op,
        ) is None,
        op_kind(op) == 0xF && op_nn(op) == 0x33 && s.i + 2 < 4096 ==> op_fault(s, op) is None,
        op_kind(op) == 0xF && (op_nn(op) == 0x55 || op_nn(op) == 0x65) && s.i + op_x(op) < 4096
            ==> op_fault(s, op) is None,
        op_kind(op) == 0xF && !(op_nn(op) == 0x1E || op_nn(op) == 0x33 || op_nn(op) == 0x55
            || op_nn(op) == 0x65) ==> op_fault(s, op) is None,
        (op_kind(op) == 0 && op != 0x00EE) || op_kind(op) == 1 || op_kind(op) == 3 || op_kind(op)
            == 4 || op_kind(op) == 5 || op_kind(op) == 6 || op_kind(op) == 7 || op_kind(op) == 9
            || op_kind(op) == 0xA || op_kind(op) == 0xB || op_kind(op) == 0xC ==> op_fault(s, op) is None,
{
}

/// `00E0` darkens every pixel and changes nothing else on the screen's
/// side; `Annn` sets the index, `Bnnn` jumps to `nnn + V0`, `6xnn` loads.
pub proof fn law_simple_effects(s: CpuState, op: u16, random: u8)
    requires
        well_shaped(s),
    ensures
        op == 0x00E0 ==> forall|a: int, b: int|
            0 <= a < 64 && 0 <= b < 32 ==> !#[trigger] exec_op(s, op, random).display[a][b],
        op == 0x00E0 ==> exec_op(s, op, random).display.len() == 64,
        op_kind(op) == 0xA ==> exec_op(s, op, random).i == op as int - 0xA000,
        op_kind(op) == 0xB ==> exec_op(s, op, random).pc == op as int - 0xB000 + s.v[0],
        op_kind(op) == 1 ==> exec_op(s, op, random).pc == op as int - 0x1000,
        op_kind(op) == 6 ==> exec_op(s, op, random).v[op_x(op)] == op as int % 256,
        op_kind(op) == 2 && s.sp < 16 ==> exec_op(s, op, random).pc == op as int - 0x2000
            && exec_op(s, op, random).sp == s.sp + 1 && exec_op(s, op, random).stack[s.sp as int]
            == s.pc,
        op_kind(op) == 0xF && op_nn(op) == 0x07 ==> exec_op(s, op, random).v[op_x(op)] == s.delay,
        op_kind(op) == 0xF && (op_nn(op) == 0x15 || op_nn(op) == 0x18) ==> exec_op(
            s,
            op,
            random,
        ).delay == s.v[op_x(op)] && exec_op(s, op, random).sound == s.sound,
{
}

/// Each conditional skip advances the program counter by two exactly when
/// its condition holds, and changes nothing else: `3xnn` when `Vx == nn`,
/// `4xnn` when `Vx != nn`, `5xy_` when `Vx == Vy`, `9xy_` when `Vx != Vy`,
/// `Ex9E` when key `Vx` is down, `ExA1` when it is up.
pub proof fn law_skip_conditions(s: CpuState, op: u16)
    requires
        well_shaped(s),
        s.pc + 2 <= 0xFFFF,
        op_kind(op) == 3 || op_kind(op) == 4 || op_kind(op) == 5 || op_kind(op) == 9 || (op_kind(
            op,
        ) == 0xE && (op_nn(op) == 0x9E || op_nn(op) == 0xA1)),
        op_fault(s, op) is None,
    ensures
        ({
            let t = exec_op(s, op, 0);
            let vx = s.v[op_x(op)];
            let vy = s.v[op_y(op)];
            let cond = if op_kind(op) == 3 {
                vx == op_nn(op)
            } else if op_kind(op) == 4 {
                vx != op_nn(op)
            } else if op_kind(op) == 5 {
                vx == vy
            } else if op_kind(op) == 9 {
                vx != vy
            } else if op_nn(op) == 0x9E {
                s.keys[vx as int]
            } else {
                !s.keys[vx as int]
            };
            &&& t.pc == if cond { s.pc + 2 } else { s.pc as int }
            &&& t == (CpuState { pc: t.pc, ..s })
        }),
{
}

/// `Fx0A` with a key down puts the lowest-numbered key that is down in `Vx`;
/// with none down nothing changes and the machine waits.
pub proof fn law_key_wait(s: CpuState, op: u16)
    requires
        well_shaped(s),
        op_kind(op) == 0xF && op_nn(op) == 0x0A,
    ensures
        ({
            let t = exec_op(s, op, 0);
            let k = t.v[op_x(op)] as int;
            &&& any_pressed(s.keys) ==> 0 <= k < 16 && s.keys[k] && forall|j: int|
                0 <= j < k ==> !#[trigger] s.keys[j]
            &&& !any_pressed(s.keys) ==> t == s
        }),
{
    if any_pressed(s.keys) {
        let w = choose|k: int| 0 <= k < 16 && #[trigger] s.keys[k];
        let k = crate::semantics::first_pressed(s.keys);
        lemma_first_exists(s.keys, w);
        assert(0 <= k < 16);
        assert(exec_op(s, op, 0).v[op_x(op)] as int == k);
    }
}

/// Some key is the lowest key down when some key is down.
proof fn lemma_first_exists(keys: Seq<bool>, w: int)
    requires
        0 <= w < 16,
        keys[w],
    ensures
        exists|k: int| 0 <= k < 16 && keys[k] && forall|j: int| 0 <= j < k ==> !#[trigger] keys[j],
    decreases w,
{
    if exists|j: int| 0 <= j < w && #[trigger] keys[j] {
        let j = choose|j: int| 0 <= j < w && #[trigger] keys[j];
        lemma_first_exists(keys, j);
    } else {
        assert(forall|j: int| 0 <= j < w ==> !#[trigger] keys[j]);
    }
}

/// `Fx55` writes `V0..=Vx` to `mem[I..=I+x]` and no other byte; `Fx65`
/// reads them back into `V0..=Vx` and changes no other register.
pub proof fn law_register_transfer(s: CpuState, op: u16)
    requires
        well_shaped(s),
        op_kind(op) == 0xF,
        s.i + op_x(op) < 4096,
    ensures
        ({
            let t = exec_op(s, op, 0);
            let x = op_x(op);
            let i = s.i as int;
            &&& op_nn(op) == 0x55 ==> (forall|k: int| 0 <= k <= x ==> #[trigger] t.mem[i + k] == s.v[k])
                && (forall|a: int| 0 <= a < 4096 && !(i <= a <= i + x) ==> #[trigger] t.mem[a] == s.mem[a])
                && t.v == s.v
            &&& op_nn(op) == 0x65 ==> (forall|k: int| 0 <= k <= x ==> #[trigger] t.v[k] == s.mem[i + k])
                && (forall|k: int| x < k < 16 ==> #[trigger] t.v[k] == s.v[k])
                && t.mem == s.mem
        }),
{
}

/// `Fx1E` adds `Vx` to the index; the flag becomes 1 when the index passes
/// `0xFFF` and is otherwise left as it was.
pub proof fn law_index_add(s: CpuState, op: u16)
    requires
        well_shaped(s),
        op_kind(op) == 0xF && op_nn(op) == 0x1E,
        s.i + s.v[op_x(op)] <= 0xFFFF,
    ensures
        ({
            let t = exec_op(s, op, 0);
            &&& t.i == s.i + s.v[op_x(op)]
            &&& t.i > 0xFFF ==> t.v[15] == 1
            &&& t.i <= 0xFFF ==> t.v[15] == s.v[15]
        }),
{
}

/// Bit `k` of `byte` as `(byte >> k) & 1` is the bit that a mask
/// `1 << k` selects.
proof fn lemma_bit_mask(byte: u8, k: u8)
    requires
        k < 8,
    ensures
        bit(byte, k) == (byte & (1u8 << k) != 0),
{
    assert(k < 8 ==> (((byte >> k) & 1u8 == 1u8) == (byte & (1u8 << k) != 0))) by (bit_vector);
}

/// The column and row of the screen where a `Dxyn` sprite starts: `Vx`
/// modulo 64 and `Vy` modulo 32, read after the flag register is cleared
/// (so register 15 reads as 0).
pub open spec fn draw_origin(s: CpuState, op: u16) -> (int, int) {
    let vx = if op_x(op) == 15 { 0 } else { s.v[op_x(op)] as int };
    let vy = if op_y(op) == 15 { 0 } else { s.v[op_y(op)] as int };
    (vx % 64, vy % 32)
}

/// `Dxyn` flips, for each sprite row `r < n` and column `c < 8`, the pixel
/// `c` columns right and `r` rows down from the origin (wrapping around the
/// screen) exactly when bit `7 - c` of memory byte `I + r` is set (the
/// leftmost pixel is the most significant bit); every other pixel stays.
pub proof fn law_draw_pixels(s: CpuState, op: u16, random: u8)
    requires
        well_shaped(s),
        op_kind(op) == 0xD,
    ensures
        ({
            let t = exec_op(s, op, random);
            let (cx, cy) = draw_origin(s, op);
            let n = op_n(op);
            let i = s.i as int;
            &&& forall|r: int, c: int|
                #![trigger s.mem[i + r], t.display[(cx + c) % 64]]
                0 <= r < n && 0 <= c < 8 ==> t.display[(cx + c) % 64][(cy + r) % 32] == (
                s.display[(cx + c) % 64][(cy + r) % 32] != bit(s.mem[i + r], (7 - c) as u8))
            &&& forall|a: int, b: int|
                0 <= a < 64 && 0 <= b < 32 && (forall|r: int, c: int|
                    0 <= r < n && 0 <= c < 8 ==> a != #[trigger] ((cx + c) % 64) || b != #[trigger] ((cy + r) % 32))
                    ==> #[trigger] t.display[a][b] == s.display[a][b]
            &&& t.display.len() == 64
            &&& forall|a: int| 0 <= a < 64 ==> (#[trigger] t.display[a]).len() == 32
        }),
{
    let t = exec_op(s, op, random);
    let (cx, cy) = draw_origin(s, op);
    let n = op_n(op);
    let i = s.i as int;
    lemma_draw_shape(s, op, random);
    assert forall|r: int, c: int|
        #![trigger s.mem[i + r], t.display[(cx + c) % 64]]
        0 <= r < n && 0 <= c < 8 implies t.display[(cx + c) % 64][(cy
        + r) % 32] == (s.display[(cx + c) % 64][(cy + r) % 32] != bit(s.mem[i + r], (7 - c) as u8)) by {
        let a = (cx + c) % 64;
        let b = (cy + r) % 32;
        lemma_offsets(cx, cy, r, c);
        lemma_draw_pixel(s, op, random, a, b);
        lemma_bit_mask(s.mem[i + r], (7 - c) as u8);
    }
    assert forall|a: int, b: int|
        0 <= a < 64 && 0 <= b < 32 && (forall|r: int, c: int|
            0 <= r < n && 0 <= c < 8 ==> a != #[trigger] ((cx + c) % 64) || b != #[trigger] ((cy + r) % 32))
        implies #[trigger] t.display[a][b] == s.display[a][b] by {
        lemma_draw_pixel(s, op, random, a, b);
        lemma_inverse(cx, cy, a, b);
        let c = (a - cx) % 64;
        let r = (b - cy) % 32;
        if sprite_hit(s.mem, i, n, cx, cy, a, b) {
            assert(a == (cx + c) % 64);
            assert(b == (cy + r) % 32);
        }
    }
}

proof fn lemma_offsets(cx: int, cy: int, r: int, c: int)
    requires
        0 <= cx < 64,
        0 <= cy < 32,
        0 <= r < 16,
        0 <= c < 8,
    ensures
        ((cx + c) % 64 - cx) % 64 == c,
        ((cy + r) % 32 - cy) % 32 == r,
        0 <= (cx + c) % 64 < 64,
        0 <= (cy + r) % 32 < 32,
{
}

proof fn lemma_inverse(cx: int, cy: int, a: int, b: int)
    requires
        0 <= cx < 64,
        0 <= cy < 32,
        0 <= a < 64,
        0 <= b < 32,
    ensures
        a == (cx + (a - cx) % 64) % 64,
        b == (cy + (b - cy) % 32) % 32,
{
}

/// What a draw leaves at one pixel, with the origin of `draw_origin`.
proof fn lemma_draw_pixel(s: CpuState, op: u16, random: u8, a: int, b: int)
    requires
        well_shaped(s),
        op_kind(op) == 0xD,
        0 <= a < 64,
        0 <= b < 32,
    ensures
        exec_op(s, op, random).display[a][b] == (s.display[a][b] != sprite_hit(
            s.mem,
            s.i as int,
            op_n(op),
            draw_origin(s, op).0,
            draw_origin(s, op).1,
            a,
            b,
        )),
        0 <= draw_origin(s, op).0 < 64,
        0 <= draw_origin(s, op).1 < 32,
{
    let u = s.v.update(15, 0u8);
    assert(draw_origin(s, op).0 == u[op_x(op)] as int % 64);
    assert(draw_origin(s, op).1 == u[op_y(op)] as int % 32);
}

proof fn lemma_draw_shape(s: CpuState, op: u16, random: u8)
    requires
        well_shaped(s),
        op_kind(op) == 0xD,
    ensures
        exec_op(s, op, random).display.len() == 64,
        forall|a: int| 0 <= a < 64 ==> (#[trigger] exec_op(s, op, random).display[a]).len() == 32,
        0 <= draw_origin(s, op).0 < 64,
        0 <= draw_origin(s, op).1 < 32,
{
}

} // verus!
