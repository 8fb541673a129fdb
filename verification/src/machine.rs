//! The executable machine state and its lifecycle: construction, reset with
//! the glyph table installed, program loading, and the runtime check that a
//! step's addressing preconditions hold.

use vstd::pervasive::VecAdditionalExecFns;
use vstd::prelude::*;

use crate::model::{
    font_seq, loaded_spec, op_nib1, op_nib2, op_nib3, op_nib4, reset_spec, step_ok,
    word_at, CpuView,
};

verus! {

/// The machine: 4 KiB of memory, 16 byte registers, the 16-bit index
/// register and program counter, a 16-slot call stack with a wrapping 4-bit
/// stack pointer, the two countdown timers, the 64 x 64 display and the
/// 4-bit step counter that gates the delay-timer cadence.
pub struct Cpu {
    /// Index register.
    pub i: u16,
    /// Program counter.
    pub pc: u16,
    /// Flat address space of 4096 bytes.
    pub memory: Vec<u8>,
    /// The 16 general-purpose registers; the last doubles as the flag.
    pub v: Vec<u8>,
    /// Pressed state of the 16 logical keys, written by the host.
    pub keypad: Vec<bool>,
    /// 64 x 64 pixel grid, row-major; `true` is lit.
    pub display: Vec<bool>,
    /// The 16 return-address slots.
    pub stack: Vec<u16>,
    /// Stack pointer, wrapping modulo 16.
    pub sp: u8,
    /// Delay timer, decremented on the instruction-count cadence.
    pub dt: u8,
    /// Sound timer, stored only; the host samples it.
    pub st: u8,
    /// Step counter, wrapping modulo 16.
    pub cycle_count: u8,
}

impl View for Cpu {
    type V = CpuView;

    open spec fn view(&self) -> CpuView {
        CpuView {
            i: self.i,
            pc: self.pc,
            memory: self.memory@,
            v: self.v@,
            keypad: self.keypad@,
            display: self.display@,
            stack: self.stack@,
            sp: self.sp,
            dt: self.dt,
            st: self.st,
            cycle_count: self.cycle_count,
        }
    }
}

impl Cpu {
    /// Well-formedness of the executable state (see [`CpuView::wf`]).
    pub open spec fn wf(&self) -> bool {
        self@.wf()
    }
}

/// A vector of `n` zero bytes.
fn zero_bytes(n: usize) -> (r: Vec<u8>)
    ensures
        r@ == Seq::new(n as nat, |k: int| 0u8),
{
    let mut r: Vec<u8> = Vec::new();
    let mut k: usize = 0;
    while k < n
        invariant
            k <= n,
            r@ == Seq::new(k as nat, |j: int| 0u8),
        decreases n - k,
    {
        r.push(0);
        k = k + 1;
        proof {
            assert(r@ =~= Seq::new(k as nat, |j: int| 0u8));
        }
    }
    r
}

/// A vector of `n` zero words.
fn zero_words(n: usize) -> (r: Vec<u16>)
    ensures
        r@ == Seq::new(n as nat, |k: int| 0u16),
{
    let mut r: Vec<u16> = Vec::new();
    let mut k: usize = 0;
    while k < n
        invariant
            k <= n,
            r@ == Seq::new(k as nat, |j: int| 0u16),
        decreases n - k,
    {
        r.push(0);
        k = k + 1;
        proof {
            assert(r@ =~= Seq::new(k as nat, |j: int| 0u16));
        }
    }
    r
}

/// A vector of `n` cleared cells.
fn false_cells(n: usize) -> (r: Vec<bool>)
    ensures
        r@ == Seq::new(n as nat, |k: int| false),
{
    let mut r: Vec<bool> = Vec::new();
    let mut k: usize = 0;
    while k < n
        invariant
            k <= n,
            r@ == Seq::new(k as nat, |j: int| false),
        decreases n - k,
    {
        r.push(false);
        k = k + 1;
        proof {
            assert(r@ =~= Seq::new(k as nat, |j: int| false));
        }
    }
    r
}

/// The glyph table as a vector (see [`font_seq`]).
fn fontset() -> (r: Vec<u8>)
    ensures
        r@ == font_seq(),
{
    let r: Vec<u8> = vec![
        0xF0, 0x90, 0x90, 0x90, 0xF0, 0x20, 0x60, 0x20, 0x20, 0x70, 0xF0, 0x10, 0xF0, 0x80, 0xF0,
        0xF0, 0x10, 0xF0, 0x10, 0xF0, 0x90, 0x90, 0xF0, 0x10, 0x10, 0xF0, 0x80, 0xF0, 0x10, 0xF0,
        0xF0, 0x80, 0xF0, 0x90, 0xF0, 0xF0, 0x10, 0x20, 0x40, 0x40, 0xF0, 0x90, 0xF0, 0x90, 0xF0,
        0xF0, 0x90, 0xF0, 0x10, 0xF0, 0xF0, 0x90, 0xF0, 0x90, 0x90, 0xE0, 0x90, 0xE0, 0x90, 0xE0,
        0xF0, 0x80, 0x80, 0x80, 0xF0, 0xE0, 0x90, 0x90, 0x90, 0xE0, 0xF0, 0x80, 0xF0, 0x80, 0xF0,
        0xF0, 0x80, 0xF0, 0x80, 0x80,
    ];
    proof {
        assert(r@ =~= font_seq());
    }
    r
}

/// The big-endian 16-bit word spanning `memory[index]` and `memory[index + 1]`;
/// both addresses must be valid, there is no wrap-around here.
pub fn read_word(memory: &Vec<u8>, index: u16) -> (r: u16)
    requires
        memory@.len() == 4096,
        index + 1 < 4096,
    ensures
        r == word_at(memory@, index),
{
    ((memory[index as usize] as u16) << 8) | (memory[(index + 1) as usize] as u16)
}

impl Cpu {
    /// A machine with every component zeroed; [`Cpu::initialize`] must still
    /// run before execution so the glyph table and start address are set.
    pub fn new() -> (r: Cpu)
        ensures
            r.wf(),
            r@.i == 0,
            r@.pc == 0,
            r@.sp == 0,
            r@.dt == 0,
            r@.st == 0,
            r@.cycle_count == 0,
            r@.memory == Seq::new(4096, |k: int| 0u8),
            r@.v == Seq::new(16, |k: int| 0u8),
            r@.keypad == Seq::new(16, |k: int| false),
            r@.display == Seq::new(4096, |k: int| false),
            r@.stack == Seq::new(16, |k: int| 0u16),
    {
        Cpu {
            i: 0,
            pc: 0,
            memory: zero_bytes(4096),
            v: zero_bytes(16),
            keypad: false_cells(16),
            display: false_cells(4096),
            stack: zero_words(16),
            sp: 0,
            dt: 0,
            st: 0,
            cycle_count: 0,
        }
    }

    /// Reset: zero memory, registers, stack, display and timers, install the
    /// glyph table, and point the program counter at the program start. The
    /// keypad and the step counter are left as they were.
    pub fn initialize(&mut self)
        requires
            old(self).wf(),
        ensures
            final(self)@ == reset_spec(old(self)@),
            final(self).wf(),
    {
        let ghost s0 = self@;
        self.pc = 0x200;
        self.i = 0;
        self.sp = 0;

        self.display = false_cells(4096);
        self.stack = zero_words(16);
        self.v = zero_bytes(16);
        self.memory = zero_bytes(4096);

        let font = fontset();
        let mut k: usize = 0;
        while k < 80
            invariant
                k <= 80,
                font@ == font_seq(),
                self.memory@.len() == 4096,
                forall|a: int| 0 <= a < k ==> self.memory@[a] == font_seq()[a],
                forall|a: int| k <= a < 4096 ==> self.memory@[a] == 0u8,
                self.i == 0,
                self.pc == 0x200,
                self.sp == 0,
                self.v@ == Seq::new(16, |j: int| 0u8),
                self.stack@ == Seq::new(16, |j: int| 0u16),
                self.display@ == Seq::new(4096, |j: int| false),
                self.keypad@ == s0.keypad,
                self.cycle_count == s0.cycle_count,
                self.dt == s0.dt,
                self.st == s0.st,
            decreases 80 - k,
        {
            let b = font[k];
            self.memory.set(k, b);
            k = k + 1;
        }

        self.dt = 0;
        self.st = 0;
        proof {
            assert(self.memory@ =~= reset_spec(old(self)@).memory);
            assert(self@ =~= reset_spec(old(self)@));
        }
    }

    /// Write a program image verbatim from address 0x200 on. An image longer
    /// than the 3584 bytes of program space would overflow the memory bank.
    pub fn load_rom(&mut self, rom: &Vec<u8>)
        requires
            old(self).wf(),
            rom@.len() <= 3584,
        ensures
            final(self)@ == loaded_spec(old(self)@, rom@),
            final(self).wf(),
    {
        let ghost s0 = self@;
        let n = rom.len();
        let mut k: usize = 0;
        while k < n
            invariant
                k <= n,
                n == rom@.len(),
                n <= 3584,
                s0.wf(),
                self.memory@.len() == 4096,
                forall|a: int| 0x200 <= a < 0x200 + k ==> self.memory@[a] == rom@[a - 0x200],
                forall|a: int|
                    0 <= a < 4096 && !(0x200 <= a < 0x200 + k) ==> self.memory@[a] == s0.memory[a],
                self.i == s0.i,
                self.pc == s0.pc,
                self.sp == s0.sp,
                self.dt == s0.dt,
                self.st == s0.st,
                self.cycle_count == s0.cycle_count,
                self.v@ == s0.v,
                self.stack@ == s0.stack,
                self.display@ == s0.display,
                self.keypad@ == s0.keypad,
            decreases n - k,
        {
            let b = rom[k];
            self.memory.set(k + 0x200, b);
            k = k + 1;
        }
        proof {
            assert(self.memory@ =~= loaded_spec(old(self)@, rom@).memory);
            assert(self@ =~= loaded_spec(old(self)@, rom@));
        }
    }

    /// Whether the next step's addressing preconditions hold (see
    /// [`step_ok`]): the host must test this before stepping and abort the
    /// run when it fails.
    pub fn can_step(&self) -> (r: bool)
        ensures
            r == step_ok(self@),
    {
        if !(self.memory.len() == 4096 && self.v.len() == 16 && self.keypad.len() == 16
            && self.display.len() == 4096 && self.stack.len() == 16 && self.sp < 16
            && self.cycle_count < 16) {
            return false;
        }
        if !(self.pc < 4095) {
            return false;
        }
        let op = read_word(&self.memory, self.pc);
        let o1 = op >> 12;
        let o2 = (op & 0x0F00) >> 8;
        let o3 = (op & 0x00F0) >> 4;
        let o4 = op & 0x000F;
        proof {
            assert(o1 == op_nib1(op) && o2 == op_nib2(op) && o3 == op_nib3(op) && o4 == op_nib4(
                op,
            ));
            assert(o2 < 16) by (bit_vector)
                requires
                    o2 == (op & 0x0F00) >> 8,
            ;
        }
        if o1 == 0xE && (o3 == 9 && o4 == 0xE || o3 == 0xA && o4 == 1) {
            if !(self.v[o2 as usize] < 16) {
                return false;
            }
        }
        if o1 == 0xF && o3 == 6 && o4 == 5 {
            if !(self.i % 4096 + o2 < 4096) {
                return false;
            }
        }
        true
    }
}

impl Default for Cpu {
    /// The same zeroed machine as [`Cpu::new`].
    fn default() -> (r: Cpu)
        ensures
            r.wf(),
            r@.i == 0,
            r@.pc == 0,
            r@.sp == 0,
            r@.dt == 0,
            r@.st == 0,
            r@.cycle_count == 0,
            r@.memory == Seq::new(4096, |k: int| 0u8),
            r@.v == Seq::new(16, |k: int| 0u8),
            r@.keypad == Seq::new(16, |k: int| false),
            r@.display == Seq::new(4096, |k: int| false),
            r@.stack == Seq::new(16, |k: int| 0u16),
    {
        Cpu::new()
    }
}

} // verus!
