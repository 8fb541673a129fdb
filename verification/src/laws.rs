//! Machine-wide laws, proved once for all states: the flag semantics of the
//! arithmetic and shift instructions, and the involution of the XOR blit.

use vstd::arithmetic::div_mod::lemma_mod_division_less_than_divisor;
use vstd::prelude::*;

use crate::model::{
    draw_collision, draw_hit, draw_lights, draw_spec, fetched, op_nib1, op_nib2, op_nib3, op_nib4,
    pix_index, sprite_bit, step_spec, CpuView,
};

verus! {

/// A sprite cell always lands on a valid display index.
proof fn lemma_pix_index_bounds(vx: u16, vy: u16, row: u16, col: u16)
    ensures
        0 <= pix_index(vx, vy, row, col) < 4096,
{
    lemma_mod_division_less_than_divisor(vy + row, 64);
    lemma_mod_division_less_than_divisor(vx + col, 64);
}

/// Register addition: for any state about to execute an add-registers
/// instruction on a register `x` other than the flag itself, the flag
/// register ends at 1 exactly when the true sum exceeds 255, and register
/// `x` ends at the sum modulo 256.
pub proof fn lemma_add_carry_flag(s: CpuView, rnd: u8)
    requires
        s.wf(),
        op_nib1(fetched(s)) == 8,
        op_nib4(fetched(s)) == 4,
        op_nib2(fetched(s)) != 15,
    ensures
        ({
            let a = s.v[op_nib2(fetched(s)) as int];
            let b = s.v[op_nib3(fetched(s)) as int];
            let t = step_spec(s, rnd);
            &&& t.v[15] == (if a + b > 255 {
                1u8
            } else {
                0u8
            })
            &&& t.v[op_nib2(fetched(s)) as int] == ((a + b) % 256) as u8
        }),
{
    let op = fetched(s);
    assert((op & 0x0F00) >> 8 < 16 && (op & 0x00F0) >> 4 < 16) by (bit_vector);
}

/// Register subtraction, both operand orders: the flag register ends at 1
/// exactly when the minuend is strictly greater than the subtrahend, and
/// register `x` takes the difference wrapped modulo 256. This covers the
/// subtract-y-from-x instruction; see [`lemma_subn_borrow_flag`] for the
/// reversed one.
pub proof fn lemma_sub_borrow_flag(s: CpuView, rnd: u8)
    requires
        s.wf(),
        op_nib1(fetched(s)) == 8,
        op_nib4(fetched(s)) == 5,
        op_nib2(fetched(s)) != 15,
    ensures
        ({
            let a = s.v[op_nib2(fetched(s)) as int];
            let b = s.v[op_nib3(fetched(s)) as int];
            let t = step_spec(s, rnd);
            &&& t.v[15] == (if a > b {
                1u8
            } else {
                0u8
            })
            &&& t.v[op_nib2(fetched(s)) as int] as int == (a - b + 256) % 256
        }),
{
    let op = fetched(s);
    assert((op & 0x0F00) >> 8 < 16 && (op & 0x00F0) >> 4 < 16) by (bit_vector);
}

/// The reversed subtraction: register `x` takes subtrahend-from-minuend
/// with the operands swapped, and the flag register again ends at 1 exactly
/// when the minuend (here register `y`) is strictly greater.
pub proof fn lemma_subn_borrow_flag(s: CpuView, rnd: u8)
    requires
        s.wf(),
        op_nib1(fetched(s)) == 8,
        op_nib4(fetched(s)) == 7,
        op_nib2(fetched(s)) != 15,
    ensures
        ({
            let a = s.v[op_nib2(fetched(s)) as int];
            let b = s.v[op_nib3(fetched(s)) as int];
            let t = step_spec(s, rnd);
            &&& t.v[15] == (if b > a {
                1u8
            } else {
                0u8
            })
            &&& t.v[op_nib2(fetched(s)) as int] as int == (b - a + 256) % 256
        }),
{
    let op = fetched(s);
    assert((op & 0x0F00) >> 8 < 16 && (op & 0x00F0) >> 4 < 16) by (bit_vector);
}

/// Shift right: the flag register captures the pre-shift low bit of the
/// source register, and the register itself is halved.
pub proof fn lemma_shr_flag(s: CpuView, rnd: u8)
    requires
        s.wf(),
        op_nib1(fetched(s)) == 8,
        op_nib4(fetched(s)) == 6,
        op_nib2(fetched(s)) != 15,
    ensures
        ({
            let a = s.v[op_nib2(fetched(s)) as int];
            let t = step_spec(s, rnd);
            &&& t.v[15] == a & 1
            &&& t.v[op_nib2(fetched(s)) as int] == a >> 1
        }),
{
    let op = fetched(s);
    assert((op & 0x0F00) >> 8 < 16 && (op & 0x00F0) >> 4 < 16) by (bit_vector);
}

/// Shift left: the flag register captures the pre-shift high bit of the
/// source register, and the register itself is doubled modulo 256.
pub proof fn lemma_shl_flag(s: CpuView, rnd: u8)
    requires
        s.wf(),
        op_nib1(fetched(s)) == 8,
        op_nib4(fetched(s)) == 0xE,
        op_nib2(fetched(s)) != 15,
    ensures
        ({
            let a = s.v[op_nib2(fetched(s)) as int];
            let t = step_spec(s, rnd);
            &&& t.v[15] == (a >> 7) & 1
            &&& t.v[op_nib2(fetched(s)) as int] == a << 1
        }),
{
    let op = fetched(s);
    assert((op & 0x0F00) >> 8 < 16 && (op & 0x00F0) >> 4 < 16) by (bit_vector);
}

/// Every instruction other than the random-byte one is deterministic: the
/// step transition does not depend on the byte the random source hands in.
pub proof fn lemma_step_random_irrelevant(s: CpuView, r1: u8, r2: u8)
    requires
        op_nib1(fetched(s)) != 0xC,
    ensures
        step_spec(s, r1) == step_spec(s, r2),
{
}

/// Drawing the same sprite twice at the same origin, with no other state
/// change in between, restores the pre-draw pixel pattern; and the second
/// draw reports a collision exactly when the first draw lit some pixel.
pub proof fn lemma_draw_idempotent(s: CpuView, h: u16, vx: u16, vy: u16)
    requires
        s.wf(),
    ensures
        ({
            let s1 = draw_spec(s, h, vx, vy);
            let s2 = draw_spec(s1, h, vx, vy);
            &&& s2.display == s.display
            &&& s2.v[15] == (if draw_lights(s.memory, s.i, s.display, h, vx, vy) {
                1u8
            } else {
                0u8
            })
        }),
{
    let s1 = draw_spec(s, h, vx, vy);
    let s2 = draw_spec(s1, h, vx, vy);
    assert forall|p: int| 0 <= p < 4096 implies s2.display[p] == s.display[p] by {
        assert(s1.display[p] == (s.display[p] != draw_hit(s.memory, s.i, h, vx, vy, p)));
        assert(s2.display[p] == (s1.display[p] != draw_hit(s.memory, s.i, h, vx, vy, p)));
    };
    assert(s2.display =~= s.display);
    if draw_collision(s1.memory, s1.i, s1.display, h, vx, vy) {
        let (row, col) = choose|row: u16, col: u16|
            row < h && col < 8 && sprite_bit(s1.memory, s1.i, row, col) && s1.display[pix_index(
                vx,
                vy,
                row,
                col,
            )];
        let p = pix_index(vx, vy, row, col);
        lemma_pix_index_bounds(vx, vy, row, col);
        assert(draw_hit(s.memory, s.i, h, vx, vy, p));
        assert(s1.display[p] == (s.display[p] != true));
        assert(!s.display[p]);
        assert(draw_lights(s.memory, s.i, s.display, h, vx, vy));
    }
    if draw_lights(s.memory, s.i, s.display, h, vx, vy) {
        let (row, col) = choose|row: u16, col: u16|
            row < h && col < 8 && sprite_bit(s.memory, s.i, row, col) && !s.display[pix_index(
                vx,
                vy,
                row,
                col,
            )];
        let p = pix_index(vx, vy, row, col);
        lemma_pix_index_bounds(vx, vy, row, col);
        assert(draw_hit(s.memory, s.i, h, vx, vy, p));
        assert(s1.display[p] == (s.display[p] != true));
        assert(s1.display[p]);
        assert(draw_collision(s1.memory, s1.i, s1.display, h, vx, vy));
    }
}

} // verus!
