//! The mathematical model of the machine: an abstract state, the decoding of
//! a 16-bit instruction into nibble fields, and the meaning of one executed
//! instruction as a function from abstract state to abstract state.

use vstd::prelude::*;

verus! {

/// Abstract machine state: every component of the interpreter as a
/// mathematical value. `memory` has 4096 bytes, `v` 16 registers, `stack`
/// 16 slots, `keypad` 16 keys and `display` 64 x 64 pixels in row-major
/// order (see [`CpuView::wf`]).
#[verifier::ext_equal]
pub ghost struct CpuView {
    pub i: u16,
    pub pc: u16,
    pub memory: Seq<u8>,
    pub v: Seq<u8>,
    pub keypad: Seq<bool>,
    pub display: Seq<bool>,
    pub stack: Seq<u16>,
    pub sp: u8,
    pub dt: u8,
    pub st: u8,
    pub cycle_count: u8,
}

impl CpuView {
    /// Well-formedness: the sizes of all components are fixed, and the two
    /// 4-bit counters (stack pointer and step counter) stay below 16.
    pub open spec fn wf(self) -> bool {
        &&& self.memory.len() == 4096
        &&& self.v.len() == 16
        &&& self.keypad.len() == 16
        &&& self.display.len() == 4096
        &&& self.stack.len() == 16
        &&& self.sp < 16
        &&& self.cycle_count < 16
    }
}

/// The big-endian 16-bit word spanning addresses `a` and `a + 1`.
pub open spec fn word_at(mem: Seq<u8>, a: u16) -> u16 {
    ((mem[a as int] as u16) << 8) | (mem[a as int + 1] as u16)
}

/// The instruction the next step will execute.
pub open spec fn fetched(s: CpuView) -> u16 {
    word_at(s.memory, s.pc)
}

/// Most significant nibble of an instruction.
pub open spec fn op_nib1(op: u16) -> u16 {
    op >> 12
}

/// Second nibble: the register index `x`.
pub open spec fn op_nib2(op: u16) -> u16 {
    (op & 0x0F00) >> 8
}

/// Third nibble: the register index `y`.
pub open spec fn op_nib3(op: u16) -> u16 {
    (op & 0x00F0) >> 4
}

/// Least significant nibble.
pub open spec fn op_nib4(op: u16) -> u16 {
    op & 0x000F
}

/// The 12-bit address operand.
pub open spec fn op_nnn(op: u16) -> u16 {
    op & 0x0FFF
}

/// The 8-bit immediate operand.
pub open spec fn op_kk(op: u16) -> u8 {
    (op & 0x00FF) as u8
}

/// Byte subtraction that wraps modulo 256.
pub open spec fn sub_wrap(a: u8, b: u8) -> u8 {
    ((a + 256 - b) % 256) as u8
}

/// The display index of the pixel a sprite cell lands on: row and column
/// each wrap modulo 64 independently.
pub open spec fn pix_index(vx: u16, vy: u16, row: u16, col: u16) -> int {
    ((vy + row) % 64) * 64 + ((vx + col) % 64)
}

/// Whether the sprite cell at (`row`, `col`) is set: bit `7 - col` of the
/// sprite byte for `row`, read from memory at `(ireg + row) mod 4096`.
pub open spec fn sprite_bit(mem: Seq<u8>, ireg: u16, row: u16, col: u16) -> bool {
    (mem[(ireg + row) % 4096] as u16) & (0x80u16 >> col) != 0
}

/// Whether some sprite cell among the first `k` (in row-major order over the
/// 8-wide sprite) is set and lands on display index `p`.
pub open spec fn hit_upto(
    mem: Seq<u8>,
    ireg: u16,
    h: u16,
    vx: u16,
    vy: u16,
    k: int,
    p: int,
) -> bool {
    exists|row: u16, col: u16|
        #![trigger sprite_bit(mem, ireg, row, col), pix_index(vx, vy, row, col)]
        row < h && col < 8 && 8 * row + col < k && sprite_bit(mem, ireg, row, col) && pix_index(
            vx,
            vy,
            row,
            col,
        ) == p
}

/// Whether some sprite cell is set and lands on display index `p`.
pub open spec fn draw_hit(mem: Seq<u8>, ireg: u16, h: u16, vx: u16, vy: u16, p: int) -> bool {
    exists|row: u16, col: u16|
        #![trigger sprite_bit(mem, ireg, row, col), pix_index(vx, vy, row, col)]
        row < h && col < 8 && sprite_bit(mem, ireg, row, col) && pix_index(vx, vy, row, col) == p
}

/// Whether some sprite cell among the first `k` is set and lands on a pixel
/// that is already lit in `disp` (a collision).
pub open spec fn coll_upto(
    mem: Seq<u8>,
    ireg: u16,
    disp: Seq<bool>,
    h: u16,
    vx: u16,
    vy: u16,
    k: int,
) -> bool {
    exists|row: u16, col: u16|
        #![trigger sprite_bit(mem, ireg, row, col), pix_index(vx, vy, row, col)]
        row < h && col < 8 && 8 * row + col < k && sprite_bit(mem, ireg, row, col)
            && disp[pix_index(vx, vy, row, col)]
}

/// Whether some sprite cell is set and lands on a pixel already lit in
/// `disp`: the condition under which a draw reports a collision.
pub open spec fn draw_collision(
    mem: Seq<u8>,
    ireg: u16,
    disp: Seq<bool>,
    h: u16,
    vx: u16,
    vy: u16,
) -> bool {
    exists|row: u16, col: u16|
        #![trigger sprite_bit(mem, ireg, row, col), pix_index(vx, vy, row, col)]
        row < h && col < 8 && sprite_bit(mem, ireg, row, col) && disp[pix_index(vx, vy, row, col)]
}

/// Whether some sprite cell is set and lands on a pixel that is dark in
/// `disp`: the condition under which a draw turns some pixel on.
pub open spec fn draw_lights(
    mem: Seq<u8>,
    ireg: u16,
    disp: Seq<bool>,
    h: u16,
    vx: u16,
    vy: u16,
) -> bool {
    exists|row: u16, col: u16|
        #![trigger sprite_bit(mem, ireg, row, col), pix_index(vx, vy, row, col)]
        row < h && col < 8 && sprite_bit(mem, ireg, row, col) && !disp[pix_index(vx, vy, row, col)]
}

/// The effect of the sprite-draw instruction: every pixel some set sprite
/// cell lands on is toggled, every other pixel keeps its state, and the flag
/// register reports whether any toggled pixel was already lit.
pub open spec fn draw_spec(s: CpuView, h: u16, vx: u16, vy: u16) -> CpuView {
    CpuView {
        display: Seq::new(
            4096,
            |p: int| s.display[p] != draw_hit(s.memory, s.i, h, vx, vy, p),
        ),
        v: s.v.update(
            15,
            if draw_collision(s.memory, s.i, s.display, h, vx, vy) {
                1u8
            } else {
                0u8
            },
        ),
        ..s
    }
}

/// The effect of the decimal-decomposition instruction on memory: hundreds,
/// tens and units of `vx` at the index register and the two following
/// addresses, the latter two wrapped modulo the memory size.
pub open spec fn bcd_spec(s: CpuView, vx: u8) -> CpuView {
    CpuView {
        memory: s.memory.update(s.i as int, (vx / 100) as u8).update(
            (s.i + 1) % 4096,
            ((vx / 10) % 10) as u8,
        ).update((s.i + 2) % 4096, (vx % 10) as u8),
        ..s
    }
}

/// Memory after storing registers `0 .. n` at the index register, each
/// offset wrapped modulo the memory size.
pub open spec fn store_seq(mem: Seq<u8>, v: Seq<u8>, ireg: u16, n: int) -> Seq<u8>
    decreases n,
{
    if n <= 0 {
        mem
    } else {
        store_seq(mem, v, ireg, n - 1).update((ireg + n - 1) % 4096, v[n - 1])
    }
}

/// The effect of the register-block-store instruction for registers
/// `0 ..= x`.
pub open spec fn fx55_spec(s: CpuView, x: u16) -> CpuView {
    CpuView { memory: store_seq(s.memory, s.v, s.i, x + 1), ..s }
}

/// Registers after loading `0 .. n` of them from memory at the index
/// register; the addresses are not wrapped, so they must lie in range.
pub open spec fn load_seq(v: Seq<u8>, mem: Seq<u8>, ireg: u16, n: int) -> Seq<u8>
    decreases n,
{
    if n <= 0 {
        v
    } else {
        load_seq(v, mem, ireg, n - 1).update(n - 1, mem[ireg + n - 1])
    }
}

/// The effect of the register-block-load instruction for registers `0 ..= x`.
pub open spec fn fx65_spec(s: CpuView, x: u16) -> CpuView {
    CpuView { v: load_seq(s.v, s.memory, s.i, x + 1), ..s }
}

/// The state every step reaches before dispatching: the program counter
/// advanced past the fetched instruction, the step counter bumped modulo 16,
/// and the index register re-masked into the address space.
pub open spec fn pre_exec(s: CpuView) -> CpuView {
    CpuView {
        pc: (s.pc + 2) as u16,
        cycle_count: ((s.cycle_count + 1) % 16) as u8,
        i: (s.i % 4096) as u16,
        ..s
    }
}

/// The effect of dispatching instruction `op` on state `s` (already past
/// [`pre_exec`]). `rnd` is the byte the random-byte instruction masks; no
/// other instruction reads it. An instruction matching no pattern leaves the
/// state unchanged.
pub open spec fn exec_op(s: CpuView, op: u16, rnd: u8) -> CpuView {
    let o1 = op_nib1(op);
    let o2 = op_nib2(op);
    let o3 = op_nib3(op);
    let o4 = op_nib4(op);
    let x = op_nib2(op) as int;
    let y = op_nib3(op) as int;
    let vx = s.v[x];
    let vy = s.v[y];
    let nnn = op_nnn(op);
    let kk = op_kk(op);
    if o1 == 0 && o2 == 0 && o3 == 0xE && o4 == 0 {
        // clear the display
        CpuView { display: Seq::new(4096, |p: int| false), ..s }
    } else if o1 == 0 && o2 == 0 && o3 == 0xE && o4 == 0xE {
        // return: pop into the program counter, stack pointer wraps down
        CpuView { pc: s.stack[s.sp as int], sp: ((s.sp + 15) % 16) as u8, ..s }
    } else if o1 == 1 {
        // jump
        CpuView { pc: nnn, ..s }
    } else if o1 == 2 {
        // call: stack pointer wraps up, then the return address is pushed
        let sp2 = ((s.sp + 1) % 16) as u8;
        CpuView { sp: sp2, stack: s.stack.update(sp2 as int, s.pc), pc: nnn, ..s }
    } else if o1 == 3 {
        // skip if register x equals the immediate
        if vx == kk {
            CpuView { pc: (s.pc + 2) as u16, ..s }
        } else {
            s
        }
    } else if o1 == 4 {
        // skip if register x differs from the immediate
        if vx != kk {
            CpuView { pc: (s.pc + 2) as u16, ..s }
        } else {
            s
        }
    } else if o1 == 5 && o4 == 0 {
        // skip if registers x and y are equal
        if vx == vy {
            CpuView { pc: (s.pc + 2) as u16, ..s }
        } else {
            s
        }
    } else if o1 == 6 {
        // load immediate
        CpuView { v: s.v.update(x, kk), ..s }
    } else if o1 == 7 {
        // add immediate, wrapping, no flag
        CpuView { v: s.v.update(x, ((vx + kk) % 256) as u8), ..s }
    } else if o1 == 8 && o4 == 0 {
        CpuView { v: s.v.update(x, vy), ..s }
    } else if o1 == 8 && o4 == 1 {
        CpuView { v: s.v.update(x, vx | vy), ..s }
    } else if o1 == 8 && o4 == 2 {
        CpuView { v: s.v.update(x, vx & vy), ..s }
    } else if o1 == 8 && o4 == 3 {
        CpuView { v: s.v.update(x, vx ^ vy), ..s }
    } else if o1 == 8 && o4 == 4 {
        // add registers: the flag reports the carry, then x takes the sum
        let flag: u8 = if vx + vy > 255 {
            1
        } else {
            0
        };
        CpuView { v: s.v.update(15, flag).update(x, ((vx + vy) % 256) as u8), ..s }
    } else if o1 == 8 && o4 == 5 {
        // subtract y from x: the flag reports x > y, then x takes x - y
        let flag: u8 = if vx > vy {
            1
        } else {
            0
        };
        CpuView { v: s.v.update(15, flag).update(x, sub_wrap(vx, vy)), ..s }
    } else if o1 == 8 && o4 == 6 {
        // shift right: the flag takes the low bit first, then x is shifted
        let v1 = s.v.update(15, vx & 1);
        CpuView { v: v1.update(x, v1[x] >> 1), ..s }
    } else if o1 == 8 && o4 == 7 {
        // subtract x from y: the flag reports y > x, then x takes y - x
        let flag: u8 = if vy > vx {
            1
        } else {
            0
        };
        CpuView { v: s.v.update(15, flag).update(x, sub_wrap(vy, vx)), ..s }
    } else if o1 == 8 && o4 == 0xE {
        // shift left: the flag takes the high bit first, then x is shifted
        let v1 = s.v.update(15, (vx >> 7) & 1);
        CpuView { v: v1.update(x, (v1[x] << 1) as u8), ..s }
    } else if o1 == 9 && o4 == 0 {
        // skip if registers x and y differ
        if vx != vy {
            CpuView { pc: (s.pc + 2) as u16, ..s }
        } else {
            s
        }
    } else if o1 == 0xA {
        // load the index register
        CpuView { i: nnn, ..s }
    } else if o1 == 0xB {
        // jump with register-0 offset
        CpuView { pc: (nnn + s.v[0]) as u16, ..s }
    } else if o1 == 0xC {
        // random byte masked by the immediate
        CpuView { v: s.v.update(x, rnd & kk), ..s }
    } else if o1 == 0xD {
        // draw a sprite of height o4 at (register x, register y)
        draw_spec(s, o4, vx as u16, vy as u16)
    } else if o1 == 0xE && o3 == 9 && o4 == 0xE {
        // skip if the key numbered by register x is pressed
        if s.keypad[vx as int] {
            CpuView { pc: (s.pc + 2) as u16, ..s }
        } else {
            s
        }
    } else if o1 == 0xE && o3 == 0xA && o4 == 1 {
        // this machine tests the same pressed condition for both key-skip
        // patterns: this one also skips when the key is pressed
        if s.keypad[vx as int] {
            CpuView { pc: (s.pc + 2) as u16, ..s }
        } else {
            s
        }
    } else if o1 == 0xF && o3 == 0 && o4 == 7 {
        // read the delay timer
        CpuView { v: s.v.update(x, s.dt), ..s }
    } else if o1 == 0xF && o3 == 0 && o4 == 0xA {
        // wait-for-key performs no state change in this machine
        s
    } else if o1 == 0xF && o3 == 1 && o4 == 5 {
        // set the delay timer
        CpuView { dt: vx, ..s }
    } else if o1 == 0xF && o3 == 1 && o4 == 8 {
        // set the sound timer
        CpuView { st: vx, ..s }
    } else if o1 == 0xF && o3 == 1 && o4 == 0xE {
        // add register x to the index register
        CpuView { i: (s.i + vx) as u16, ..s }
    } else if o1 == 0xF && o3 == 2 && o4 == 9 {
        // glyph address: five bytes per character
        CpuView { i: (vx * 5) as u16, ..s }
    } else if o1 == 0xF && o3 == 3 && o4 == 3 {
        bcd_spec(s, vx)
    } else if o1 == 0xF && o3 == 5 && o4 == 5 {
        fx55_spec(s, o2)
    } else if o1 == 0xF && o3 == 6 && o4 == 5 {
        fx65_spec(s, o2)
    } else {
        // unknown instruction: no state change
        s
    }
}

/// Whether `op` matches one of the handled instruction patterns.
pub open spec fn is_known_op(op: u16) -> bool {
    let o1 = op_nib1(op);
    let o2 = op_nib2(op);
    let o3 = op_nib3(op);
    let o4 = op_nib4(op);
    ||| o1 == 0 && o2 == 0 && o3 == 0xE && (o4 == 0 || o4 == 0xE)
    ||| o1 == 1
    ||| o1 == 2
    ||| o1 == 3
    ||| o1 == 4
    ||| o1 == 5 && o4 == 0
    ||| o1 == 6
    ||| o1 == 7
    ||| o1 == 8 && (o4 <= 7 || o4 == 0xE)
    ||| o1 == 9 && o4 == 0
    ||| o1 == 0xA
    ||| o1 == 0xB
    ||| o1 == 0xC
    ||| o1 == 0xD
    ||| o1 == 0xE && (o3 == 9 && o4 == 0xE || o3 == 0xA && o4 == 1)
    ||| o1 == 0xF && (o3 == 0 && (o4 == 7 || o4 == 0xA) || o3 == 1 && (o4 == 5 || o4 == 8 || o4
        == 0xE) || o3 == 2 && o4 == 9 || o3 == 3 && o4 == 3 || o3 == 5 && o4 == 5 || o3 == 6 && o4
        == 5)
}

/// The delay-timer cadence applied at the end of a step: when the bumped
/// step counter sits at 15 and the delay timer is positive, the delay timer
/// goes down by one.
pub open spec fn tick(s: CpuView) -> CpuView {
    if s.cycle_count + 1 == 16 && s.dt > 0 {
        CpuView { dt: (s.dt - 1) as u8, ..s }
    } else {
        s
    }
}

/// One full step of the machine: fetch the instruction at the program
/// counter, advance, dispatch, and apply the timer cadence. `rnd` is the
/// byte a random-byte instruction would mask.
pub open spec fn step_spec(s: CpuView, rnd: u8) -> CpuView {
    tick(exec_op(pre_exec(s), fetched(s), rnd))
}

/// The inputs on which a step is defined. Fetching must not overrun the
/// last valid address pair, a key-skip instruction must name one of the 16
/// keys, and the unwrapped addresses of the register-block-load instruction
/// must stay inside memory; on any other input the machine's addressing
/// invariants would be corrupted and execution must abort instead.
pub open spec fn step_ok(s: CpuView) -> bool {
    let op = fetched(s);
    &&& s.wf()
    &&& s.pc + 1 < 4096
    &&& (op_nib1(op) == 0xE && (op_nib3(op) == 9 && op_nib4(op) == 0xE || op_nib3(op) == 0xA
        && op_nib4(op) == 1) ==> s.v[op_nib2(op) as int] < 16)
    &&& (op_nib1(op) == 0xF && op_nib3(op) == 6 && op_nib4(op) == 5 ==> s.i % 4096 + op_nib2(op)
        < 4096)
}

/// The fixed glyph table: 16 characters, five bytes each.
pub open spec fn font_seq() -> Seq<u8> {
    seq![
        0xF0u8, 0x90, 0x90, 0x90, 0xF0, // 0
        0x20, 0x60, 0x20, 0x20, 0x70, // 1
        0xF0, 0x10, 0xF0, 0x80, 0xF0, // 2
        0xF0, 0x10, 0xF0, 0x10, 0xF0, // 3
        0x90, 0x90, 0xF0, 0x10, 0x10, // 4
        0xF0, 0x80, 0xF0, 0x10, 0xF0, // 5
        0xF0, 0x80, 0xF0, 0x90, 0xF0, // 6
        0xF0, 0x10, 0x20, 0x40, 0x40, // 7
        0xF0, 0x90, 0xF0, 0x90, 0xF0, // 8
        0xF0, 0x90, 0xF0, 0x10, 0xF0, // 9
        0xF0, 0x90, 0xF0, 0x90, 0x90, // A
        0xE0, 0x90, 0xE0, 0x90, 0xE0, // B
        0xF0, 0x80, 0x80, 0x80, 0xF0, // C
        0xE0, 0x90, 0x90, 0x90, 0xE0, // D
        0xF0, 0x80, 0xF0, 0x80, 0xF0, // E
        0xF0, 0x80, 0xF0, 0x80, 0x80, // F
    ]
}

/// The state after a reset: everything zeroed but for the glyph table at the
/// bottom of memory and the program counter at the conventional program
/// start. The keypad and the step counter are left as they were.
pub open spec fn reset_spec(s: CpuView) -> CpuView {
    CpuView {
        i: 0,
        pc: 0x200,
        sp: 0,
        dt: 0,
        st: 0,
        memory: Seq::new(
            4096,
            |a: int| if a < 80 {
                font_seq()[a]
            } else {
                0u8
            },
        ),
        v: Seq::new(16, |k: int| 0u8),
        stack: Seq::new(16, |k: int| 0u16),
        display: Seq::new(4096, |p: int| false),
        ..s
    }
}

/// The state after loading a program image: its bytes verbatim from address
/// 0x200 on, everything else untouched.
pub open spec fn loaded_spec(s: CpuView, rom: Seq<u8>) -> CpuView {
    CpuView {
        memory: Seq::new(
            4096,
            |a: int| if 0x200 <= a < 0x200 + rom.len() {
                rom[a - 0x200]
            } else {
                s.memory[a]
            },
        ),
        ..s
    }
}

} // verus!
