//! `Dxyn`: drawing a sprite by flipping pixels.
use crate::cpu::Cpu;
use crate::execute::lemma_decode;
use crate::semantics::{
    bit_set, exec_draw, op_fault, op_kind, op_n, op_x, op_y, sprite_collides, sprite_hit, CpuState,
    MEMORY_SIZE,
};
use vstd::prelude::*;

verus! {

/// Column of the screen where bit `j` of a sprite row drawn from column
/// `cx` lands.
pub open spec fn sprite_column(cx: int, j: int) -> int {
    if cx + 7 - j >= 64 {
        cx + 7 - j - 64
    } else {
        cx + 7 - j
    }
}

/// Row of the screen where sprite row `r` drawn from row `cy` lands.
pub open spec fn sprite_row(cy: int, r: int) -> int {
    if cy + r >= 32 {
        cy + r - 32
    } else {
        cy + r
    }
}

/// `sprite_hit`, limited to the bits drawn before bit `jj` of row `rr`
/// (rows top to bottom, bits from least significant up).
pub open spec fn hit_before(
    mem: Seq<u8>,
    i: int,
    n: int,
    cx: int,
    cy: int,
    a: int,
    b: int,
    rr: int,
    jj: int,
) -> bool {
    let c = (a - cx) % 64;
    let r = (b - cy) % 32;
    sprite_hit(mem, i, n, cx, cy, a, b) && (r < rr || (r == rr && 7 - c < jj))
}

pub open spec fn collided_before(
    mem: Seq<u8>,
    display: Seq<Seq<bool>>,
    i: int,
    n: int,
    cx: int,
    cy: int,
    rr: int,
    jj: int,
) -> bool {
    exists|a: int, b: int|
        0 <= a < 64 && 0 <= b < 32 && #[trigger] hit_before(mem, i, n, cx, cy, a, b, rr, jj)
            && display[a][b]
}

/// A pixel's offset from the sprite corner, modulo the screen size, names
/// exactly one sprite bit.
proof fn lemma_pixel_slot(cx: int, cy: int, r: int, j: int, a: int, b: int)
    requires
        0 <= cx < 64,
        0 <= cy < 32,
        0 <= r < 16,
        0 <= j < 8,
        0 <= a < 64,
        0 <= b < 32,
    ensures
        ((a - cx) % 64 == 7 - j && (b - cy) % 32 == r) <==> (a == sprite_column(cx, j) && b
            == sprite_row(cy, r)),
        0 <= sprite_column(cx, j) < 64,
        0 <= sprite_row(cy, r) < 32,
{
}

impl Cpu {
    /// `Dxyn`.
    pub(crate) fn exec_draw_op(&mut self, op: u16)
        requires
            op_kind(op) == 0xD,
            op_fault(old(self)@, op) is None,
        ensures
            final(self)@ == exec_draw(old(self)@, op),
    {
        proof {
            lemma_decode(op);
        }
        let x = ((op & 0x0F00) >> 8) as usize;
        let y = ((op & 0x00F0) >> 4) as usize;
        let n = (op & 0x000F) as u8;
        let ghost s0 = self@;
        let ghost d0 = s0.display;
        let ghost mem = s0.mem;
        let ghost base = s0.i as int;
        assert(s0.v.len() == 16 && mem.len() == 4096);
        self.v[0xF] = 0;
        let cx = (self.v[x] % 64) as usize;
        let cy = (self.v[y] % 32) as usize;
        let ghost ni = n as int;
        assert(ni == op_n(op));
        let mut r: u8 = 0;
        while r < n
            invariant
                0 <= r <= n,
                n < 16,
                ni == n,
                n > 0 ==> base + n - 1 < MEMORY_SIZE,
                base == self.i,
                self.mem@ == mem,
                0 <= cx < 64,
                0 <= cy < 32,
                d0.len() == 64,
                s0.v.len() == 16,
                forall|a: int| 0 <= a < 64 ==> (#[trigger] d0[a]).len() == 32,
                forall|a: int, b: int|
                    0 <= a < 64 && 0 <= b < 32 ==> #[trigger] self.display@[a]@[b] == (d0[a][b]
                        != hit_before(mem, base, ni, cx as int, cy as int, a, b, r as int, 0)),
                self.v@ == s0.v.update(
                    15,
                    if collided_before(mem, d0, base, ni, cx as int, cy as int, r as int, 0) {
                        1u8
                    } else {
                        0u8
                    },
                ),
                self@ == (CpuState { display: self@.display, v: self@.v, ..s0 }),
            decreases n - r,
        {
            let row = self.mem[(self.i + r as u16) as usize];
            assert(self.mem@ == mem);
            assert(row == mem[base + r]);
            let mut j: u8 = 0;
            while j < 8
                invariant
                    0 <= r < n,
                    n < 16,
                    ni == n,
                    j <= 8,
                    base == self.i,
                    self.mem@ == mem,
                    base + r < MEMORY_SIZE,
                    row == mem[base + r],
                    0 <= cx < 64,
                    0 <= cy < 32,
                    d0.len() == 64,
                    s0.v.len() == 16,
                    forall|a: int| 0 <= a < 64 ==> (#[trigger] d0[a]).len() == 32,
                    forall|a: int, b: int|
                        0 <= a < 64 && 0 <= b < 32 ==> #[trigger] self.display@[a]@[b] == (
                        d0[a][b] != hit_before(
                            mem,
                            base,
                            ni,
                            cx as int,
                            cy as int,
                            a,
                            b,
                            r as int,
                            j as int,
                        )),
                    self.v@ == s0.v.update(
                        15,
                        if collided_before(
                            mem,
                            d0,
                            base,
                            ni,
                            cx as int,
                            cy as int,
                            r as int,
                            j as int,
                        ) {
                            1u8
                        } else {
                            0u8
                        },
                    ),
                    self@ == (CpuState { display: self@.display, v: self@.v, ..s0 }),
                decreases 8 - j,
            {
                let to_and: u8 = 1 << j;
                let ghost px = sprite_column(cx as int, j as int);
                let ghost py = sprite_row(cy as int, r as int);
                proof {
                    lemma_pixel_slot(cx as int, cy as int, r as int, j as int, 0, 0);
                }
                let ghost set = bit_set(row, j as int);
                assert(set == (row & to_and != 0));
                if row & to_and != 0 {
                    let mut px_e = cx + 7 - j as usize;
                    let mut py_e = cy + r as usize;
                    if px_e >= 64 {
                        px_e -= 64
                    }
                    if py_e >= 32 {
                        py_e -= 32
                    }
                    assert(px_e == px && py_e == py);
                    assert(!hit_before(mem, base, ni, cx as int, cy as int, px, py, r as int, j as int)) by {
                        lemma_pixel_slot(cx as int, cy as int, r as int, j as int, px, py);
                    }
                    assert(self.display@[px]@[py] == d0[px][py]);
                    self.display[px_e][py_e] = !self.display[px_e][py_e];
                    if !self.display[px_e][py_e] {
                        self.v[0xF] = 1;
                    }
                }
                proof {
                    assert forall|a: int, b: int| 0 <= a < 64 && 0 <= b < 32 implies hit_before(
                        mem,
                        base,
                        ni,
                        cx as int,
                        cy as int,
                        a,
                        b,
                        r as int,
                        j + 1,
                    ) == (hit_before(mem, base, ni, cx as int, cy as int, a, b, r as int, j as int)
                        || (a == px && b == py && set)) by {
                        lemma_pixel_slot(cx as int, cy as int, r as int, j as int, a, b);
                    }
                    assert forall|a: int, b: int| 0 <= a < 64 && 0 <= b < 32 implies #[trigger] self.display@[a]@[b] == (
                    d0[a][b] != hit_before(
                        mem,
                        base,
                        ni,
                        cx as int,
                        cy as int,
                        a,
                        b,
                        r as int,
                        j + 1,
                    )) by {
                        lemma_pixel_slot(cx as int, cy as int, r as int, j as int, a, b);
                        if a == px && b == py {
                            assert(!hit_before(mem, base, ni, cx as int, cy as int, a, b, r as int, j as int));
                        }
                    }
                    let nc = collided_before(mem, d0, base, ni, cx as int, cy as int, r as int, j + 1);
                    let oc = collided_before(mem, d0, base, ni, cx as int, cy as int, r as int, j as int);
                    assert(!hit_before(mem, base, ni, cx as int, cy as int, px, py, r as int, j as int)) by {
                        lemma_pixel_slot(cx as int, cy as int, r as int, j as int, px, py);
                    }
                    if oc {
                        let (wa, wb) = choose|a: int, b: int|
                            0 <= a < 64 && 0 <= b < 32 && #[trigger] hit_before(mem, base, ni, cx as int, cy as int, a, b, r as int, j as int)
                                && d0[a][b];
                        lemma_pixel_slot(cx as int, cy as int, r as int, j as int, wa, wb);
                        assert(hit_before(mem, base, ni, cx as int, cy as int, wa, wb, r as int, j + 1));
                        assert(nc);
                    }
                    if set && d0[px][py] {
                        assert(hit_before(mem, base, ni, cx as int, cy as int, px, py, r as int, j + 1)) by {
                            lemma_pixel_slot(cx as int, cy as int, r as int, j as int, px, py);
                        }
                        assert(nc);
                    }
                    if nc {
                        let (wa, wb) = choose|a: int, b: int|
                            0 <= a < 64 && 0 <= b < 32 && #[trigger] hit_before(mem, base, ni, cx as int, cy as int, a, b, r as int, j + 1)
                                && d0[a][b];
                        lemma_pixel_slot(cx as int, cy as int, r as int, j as int, wa, wb);
                        if !(wa == px && wb == py) {
                            assert(hit_before(mem, base, ni, cx as int, cy as int, wa, wb, r as int, j as int));
                            assert(oc);
                        }
                    }
                    assert(nc == (oc || (set && d0[px][py])));
                    if set && d0[px][py] {
                        assert(self.v@ =~= s0.v.update(15, 1u8));
                    }
                    assert(self.v@ =~= s0.v.update(15, if nc { 1u8 } else { 0u8 }));
                }
                j += 1;
            }
            proof {
                assert forall|a: int, b: int| 0 <= a < 64 && 0 <= b < 32 implies hit_before(
                    mem,
                    base,
                    ni,
                    cx as int,
                    cy as int,
                    a,
                    b,
                    r as int,
                    8,
                ) == hit_before(mem, base, ni, cx as int, cy as int, a, b, r + 1, 0) by {}
                let c8 = collided_before(mem, d0, base, ni, cx as int, cy as int, r as int, 8);
                let c0 = collided_before(mem, d0, base, ni, cx as int, cy as int, r + 1, 0);
                if c8 {
                    let (wa, wb) = choose|a: int, b: int|
                        0 <= a < 64 && 0 <= b < 32 && #[trigger] hit_before(mem, base, ni, cx as int, cy as int, a, b, r as int, 8)
                            && d0[a][b];
                    assert(hit_before(mem, base, ni, cx as int, cy as int, wa, wb, r + 1, 0));
                }
                if c0 {
                    let (wa, wb) = choose|a: int, b: int|
                        0 <= a < 64 && 0 <= b < 32 && #[trigger] hit_before(mem, base, ni, cx as int, cy as int, a, b, r + 1, 0)
                            && d0[a][b];
                    assert(hit_before(mem, base, ni, cx as int, cy as int, wa, wb, r as int, 8));
                }
                assert(c8 == c0);
            }
            r += 1;
        }
        proof {
            let t = exec_draw(s0, op);
            assert(cx == (s0.v.update(15, 0u8))[op_x(op)] as int % 64);
            assert(cy == (s0.v.update(15, 0u8))[op_y(op)] as int % 32);
            assert forall|a: int, b: int| 0 <= a < 64 && 0 <= b < 32 implies hit_before(
                mem,
                base,
                ni,
                cx as int,
                cy as int,
                a,
                b,
                ni,
                0,
            ) == sprite_hit(mem, base, ni, cx as int, cy as int, a, b) by {}
            assert(collided_before(mem, d0, base, ni, cx as int, cy as int, ni, 0)
                == sprite_collides(mem, d0, base, ni, cx as int, cy as int));
            assert(self@.display =~~= t.display);
            assert(self@.v =~= t.v);
        }
    }
}

} // verus!
