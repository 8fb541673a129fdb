//! Sprite drawing: the XOR blit with collision detection. The contract of
//! [`Cpu::draw`] is pointwise: every pixel some set sprite cell lands on is
//! toggled, every other pixel keeps its state, and the flag register
//! reports whether a toggled pixel was already lit.

use vstd::arithmetic::div_mod::{lemma_fundamental_div_mod, lemma_mod_division_less_than_divisor};
use vstd::pervasive::VecAdditionalExecFns;
use vstd::prelude::*;

use crate::machine::Cpu;
use crate::model::{
    coll_upto, draw_collision, draw_hit, draw_spec, hit_upto, pix_index, sprite_bit, CpuView,
};

verus! {

/// Rows wrap modulo 64 and columns wrap modulo 64 independently, so within
/// one sprite (at most 15 rows, 8 columns) no two cells land on the same
/// display index.
proof fn lemma_pix_index_inj(vx: u16, vy: u16, r1: u16, c1: u16, r2: u16, c2: u16)
    requires
        r1 < 64,
        c1 < 8,
        r2 < 64,
        c2 < 8,
        pix_index(vx, vy, r1, c1) == pix_index(vx, vy, r2, c2),
    ensures
        r1 == r2,
        c1 == c2,
{
    let a1 = vy + r1;
    let a2 = vy + r2;
    let b1 = vx + c1;
    let b2 = vx + c2;
    lemma_mod_division_less_than_divisor(a1, 64);
    lemma_mod_division_less_than_divisor(a2, 64);
    lemma_mod_division_less_than_divisor(b1, 64);
    lemma_mod_division_less_than_divisor(b2, 64);
    assert(a1 % 64 == a2 % 64 && b1 % 64 == b2 % 64);
    lemma_fundamental_div_mod(a1, 64);
    lemma_fundamental_div_mod(a2, 64);
    assert(a1 - a2 == 64 * (a1 / 64 - a2 / 64)) by (nonlinear_arith)
        requires
            a1 == 64 * (a1 / 64) + a1 % 64,
            a2 == 64 * (a2 / 64) + a2 % 64,
            a1 % 64 == a2 % 64,
    ;
    assert(a1 == a2) by (nonlinear_arith)
        requires
            a1 - a2 == 64 * (a1 / 64 - a2 / 64),
            -64 < a1 - a2 < 64,
    ;
    lemma_fundamental_div_mod(b1, 64);
    lemma_fundamental_div_mod(b2, 64);
    assert(b1 - b2 == 64 * (b1 / 64 - b2 / 64)) by (nonlinear_arith)
        requires
            b1 == 64 * (b1 / 64) + b1 % 64,
            b2 == 64 * (b2 / 64) + b2 % 64,
            b1 % 64 == b2 % 64,
    ;
    assert(b1 == b2) by (nonlinear_arith)
        requires
            b1 - b2 == 64 * (b1 / 64 - b2 / 64),
            -64 < b1 - b2 < 64,
    ;
}

/// How the first-`k` forms of the hit and collision predicates grow by one
/// cell, and that the cell about to be processed was not landed on by any
/// earlier cell.
proof fn lemma_upto_step(
    mem: Seq<u8>,
    ireg: u16,
    disp: Seq<bool>,
    h: u16,
    vx: u16,
    vy: u16,
    r: u16,
    c: u16,
)
    requires
        r < h,
        c < 8,
        h <= 15,
    ensures
        forall|p: int|
            #[trigger] hit_upto(mem, ireg, h, vx, vy, 8 * r + c + 1, p) == (hit_upto(
                mem,
                ireg,
                h,
                vx,
                vy,
                8 * r + c,
                p,
            ) || (sprite_bit(mem, ireg, r, c) && pix_index(vx, vy, r, c) == p)),
        coll_upto(mem, ireg, disp, h, vx, vy, 8 * r + c + 1) == (coll_upto(
            mem,
            ireg,
            disp,
            h,
            vx,
            vy,
            8 * r + c,
        ) || (sprite_bit(mem, ireg, r, c) && disp[pix_index(vx, vy, r, c)])),
        !hit_upto(mem, ireg, h, vx, vy, 8 * r + c, pix_index(vx, vy, r, c)),
{
    let k0 = 8 * r + c;
    let k1 = 8 * r + c + 1;
    assert forall|p: int|
        #[trigger] hit_upto(mem, ireg, h, vx, vy, k1, p) == (hit_upto(mem, ireg, h, vx, vy, k0, p)
            || (sprite_bit(mem, ireg, r, c) && pix_index(vx, vy, r, c) == p)) by {
        if hit_upto(mem, ireg, h, vx, vy, k1, p) {
            let (row, col) = choose|row: u16, col: u16|
                row < h && col < 8 && 8 * row + col < k1 && sprite_bit(mem, ireg, row, col)
                    && pix_index(vx, vy, row, col) == p;
            if 8 * row + col < k0 {
                assert(hit_upto(mem, ireg, h, vx, vy, k0, p));
            } else {
                assert(row == r && col == c);
            }
        }
        if hit_upto(mem, ireg, h, vx, vy, k0, p) {
            let (row, col) = choose|row: u16, col: u16|
                row < h && col < 8 && 8 * row + col < k0 && sprite_bit(mem, ireg, row, col)
                    && pix_index(vx, vy, row, col) == p;
            assert(8 * row + col < k1);
            assert(hit_upto(mem, ireg, h, vx, vy, k1, p));
        }
        if sprite_bit(mem, ireg, r, c) && pix_index(vx, vy, r, c) == p {
            assert(8 * r + c < k1);
            assert(hit_upto(mem, ireg, h, vx, vy, k1, p));
        }
    };
    if coll_upto(mem, ireg, disp, h, vx, vy, k1) {
        let (row, col) = choose|row: u16, col: u16|
            row < h && col < 8 && 8 * row + col < k1 && sprite_bit(mem, ireg, row, col)
                && disp[pix_index(vx, vy, row, col)];
        if 8 * row + col < k0 {
            assert(coll_upto(mem, ireg, disp, h, vx, vy, k0));
        } else {
            assert(row == r && col == c);
        }
    }
    if coll_upto(mem, ireg, disp, h, vx, vy, k0) {
        let (row, col) = choose|row: u16, col: u16|
            row < h && col < 8 && 8 * row + col < k0 && sprite_bit(mem, ireg, row, col)
                && disp[pix_index(vx, vy, row, col)];
        assert(8 * row + col < k1);
        assert(coll_upto(mem, ireg, disp, h, vx, vy, k1));
    }
    if sprite_bit(mem, ireg, r, c) && disp[pix_index(vx, vy, r, c)] {
        assert(8 * r + c < k1);
        assert(coll_upto(mem, ireg, disp, h, vx, vy, k1));
    }
    if hit_upto(mem, ireg, h, vx, vy, k0, pix_index(vx, vy, r, c)) {
        let (row, col) = choose|row: u16, col: u16|
            row < h && col < 8 && 8 * row + col < k0 && sprite_bit(mem, ireg, row, col)
                && pix_index(vx, vy, row, col) == pix_index(vx, vy, r, c);
        lemma_pix_index_inj(vx, vy, row, col, r, c);
        assert(false);
    }
}

/// With all `8 * h` cells taken in, the first-`k` forms coincide with the
/// full hit and collision predicates.
proof fn lemma_upto_full(mem: Seq<u8>, ireg: u16, disp: Seq<bool>, h: u16, vx: u16, vy: u16)
    ensures
        forall|p: int|
            #[trigger] hit_upto(mem, ireg, h, vx, vy, 8 * h, p) == draw_hit(mem, ireg, h, vx, vy, p),
        coll_upto(mem, ireg, disp, h, vx, vy, 8 * h) == draw_collision(mem, ireg, disp, h, vx, vy),
{
    assert forall|p: int|
        #[trigger] hit_upto(mem, ireg, h, vx, vy, 8 * h, p) == draw_hit(
            mem,
            ireg,
            h,
            vx,
            vy,
            p,
        ) by {
        if hit_upto(mem, ireg, h, vx, vy, 8 * h, p) {
            let (row, col) = choose|row: u16, col: u16|
                row < h && col < 8 && 8 * row + col < 8 * h && sprite_bit(mem, ireg, row, col)
                    && pix_index(vx, vy, row, col) == p;
            assert(draw_hit(mem, ireg, h, vx, vy, p));
        }
        if draw_hit(mem, ireg, h, vx, vy, p) {
            let (row, col) = choose|row: u16, col: u16|
                row < h && col < 8 && sprite_bit(mem, ireg, row, col) && pix_index(
                    vx,
                    vy,
                    row,
                    col,
                ) == p;
            assert(8 * row + col < 8 * h);
            assert(hit_upto(mem, ireg, h, vx, vy, 8 * h, p));
        }
    };
    if coll_upto(mem, ireg, disp, h, vx, vy, 8 * h) {
        let (row, col) = choose|row: u16, col: u16|
            row < h && col < 8 && 8 * row + col < 8 * h && sprite_bit(mem, ireg, row, col)
                && disp[pix_index(vx, vy, row, col)];
        assert(draw_collision(mem, ireg, disp, h, vx, vy));
    }
    if draw_collision(mem, ireg, disp, h, vx, vy) {
        let (row, col) = choose|row: u16, col: u16|
            row < h && col < 8 && sprite_bit(mem, ireg, row, col) && disp[pix_index(
                vx,
                vy,
                row,
                col,
            )];
        assert(8 * row + col < 8 * h);
        assert(coll_upto(mem, ireg, disp, h, vx, vy, 8 * h));
    }
}

impl Cpu {
    /// Blit a sprite of `height` rows (each 8 cells wide, read from memory
    /// at the index register) with its origin at `(vx, vy)`. Rows and
    /// columns wrap modulo 64 independently; lit cells toggle their pixel;
    /// the flag register is reset first and reports whether any toggled
    /// pixel was already lit.
    pub fn draw(&mut self, height: u16, vx: u16, vy: u16)
        requires
            old(self).wf(),
            old(self)@.i < 4096,
            height <= 15,
            vx <= 255,
            vy <= 255,
        ensures
            final(self)@ == draw_spec(old(self)@, height, vx, vy),
            final(self).wf(),
    {
        let ghost s0 = self@;
        self.v.set(15, 0);
        proof {
            assert(self.v@ =~= s0.v.update(
                15,
                if coll_upto(s0.memory, s0.i, s0.display, height, vx, vy, 0) {
                    1u8
                } else {
                    0u8
                },
            ));
        }
        let mut r: u16 = 0;
        while r < height
            invariant
                r <= height,
                height <= 15,
                vx <= 255,
                vy <= 255,
                s0.wf(),
                s0.i < 4096,
                self.i == s0.i,
                self.pc == s0.pc,
                self.sp == s0.sp,
                self.dt == s0.dt,
                self.st == s0.st,
                self.cycle_count == s0.cycle_count,
                self.memory@ == s0.memory,
                self.stack@ == s0.stack,
                self.keypad@ == s0.keypad,
                self.v@ == s0.v.update(
                    15,
                    if coll_upto(s0.memory, s0.i, s0.display, height, vx, vy, 8 * r) {
                        1u8
                    } else {
                        0u8
                    },
                ),
                self.display@.len() == 4096,
                forall|p: int|
                    0 <= p < 4096 ==> self.display@[p] == (s0.display[p] != hit_upto(
                        s0.memory,
                        s0.i,
                        height,
                        vx,
                        vy,
                        8 * r,
                        p,
                    )),
            decreases height - r,
        {
            let mut c: u16 = 0;
            while c < 8
                invariant
                    r < height,
                    c <= 8,
                    height <= 15,
                    vx <= 255,
                    vy <= 255,
                    s0.wf(),
                    s0.i < 4096,
                    self.i == s0.i,
                    self.pc == s0.pc,
                    self.sp == s0.sp,
                    self.dt == s0.dt,
                    self.st == s0.st,
                    self.cycle_count == s0.cycle_count,
                    self.memory@ == s0.memory,
                    self.stack@ == s0.stack,
                    self.keypad@ == s0.keypad,
                    self.v@ == s0.v.update(
                        15,
                        if coll_upto(s0.memory, s0.i, s0.display, height, vx, vy, 8 * r + c) {
                            1u8
                        } else {
                            0u8
                        },
                    ),
                    self.display@.len() == 4096,
                    forall|p: int|
                        0 <= p < 4096 ==> self.display@[p] == (s0.display[p] != hit_upto(
                            s0.memory,
                            s0.i,
                            height,
                            vx,
                            vy,
                            8 * r + c,
                            p,
                        )),
                decreases 8 - c,
            {
                let rowm: u16 = (r + vy) % 64;
                let colm: u16 = (vx + c) % 64;
                let idx: usize = (rowm * 64 + colm) as usize;
                proof {
                    assert(idx == pix_index(vx, vy, r, c));
                    assert(idx < 4096);
                }
                let cur: bool = self.display[idx];
                let sprite: u16 = self.memory[((self.i + r) % 4096) as usize] as u16;
                let bit: bool = (sprite & (0x80u16 >> c)) != 0;
                proof {
                    assert(bit == sprite_bit(s0.memory, s0.i, r, c));
                    lemma_upto_step(s0.memory, s0.i, s0.display, height, vx, vy, r, c);
                    assert(cur == s0.display[idx as int]);
                }
                if bit {
                    if cur {
                        self.v.set(15, 1);
                    }
                    self.display.set(idx, !cur);
                }
                proof {
                    assert(self.v@ =~= s0.v.update(
                        15,
                        if coll_upto(s0.memory, s0.i, s0.display, height, vx, vy, 8 * r + c + 1) {
                            1u8
                        } else {
                            0u8
                        },
                    ));
                    assert forall|p: int| 0 <= p < 4096 implies self.display@[p] == (s0.display[p]
                        != hit_upto(s0.memory, s0.i, height, vx, vy, 8 * r + c + 1, p)) by {
                        if p != idx as int {
                            assert(self.display@[p] == (s0.display[p] != hit_upto(
                                s0.memory,
                                s0.i,
                                height,
                                vx,
                                vy,
                                8 * r + c,
                                p,
                            )));
                        }
                    };
                }
                c = c + 1;
            }
            proof {
                assert(8 * r + 8 == 8 * (r + 1));
            }
            r = r + 1;
        }
        proof {
            lemma_upto_full(s0.memory, s0.i, s0.display, height, vx, vy);
            assert(self.display@ =~= draw_spec(s0, height, vx, vy).display);
            assert(self.v@ =~= draw_spec(s0, height, vx, vy).v);
            assert(self@ =~= draw_spec(s0, height, vx, vy));
        }
    }
}

} // verus!
