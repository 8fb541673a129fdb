//! The fetch-decode-execute step: one instruction per call, dispatched on
//! the four nibbles of the fetched word, with the delay-timer cadence
//! applied at the end.

use vstd::pervasive::VecAdditionalExecFns;
use vstd::prelude::*;

use crate::machine::{read_word, Cpu};
use crate::model::{
    bcd_spec, exec_op, fetched, fx55_spec, fx65_spec, is_known_op, load_seq, op_nib1, op_nib2,
    op_nib3, op_nib4, pre_exec, step_ok, step_spec, store_seq, tick, CpuView,
};

verus! {

/// What a step reports back: either the instruction matched a handled
/// pattern, or it matched none and the step changed no state beyond the
/// normal program-counter advance.
#[derive(Clone, Copy, Debug, PartialEq, Eq, Structural)]
pub enum StepEvent {
    /// The fetched instruction matched a handled pattern.
    Executed,
    /// The fetched instruction (carried here for diagnosis) matched no
    /// pattern; execution continues.
    Unknown(u16),
}

/// Relies on rand::random for one uniformly distributed byte. Nothing can
/// be promised of a random value, so no clause is stated; every caller must
/// hold for every byte that could come back.
#[verifier::external_body]
fn random_byte() -> (r: u8) {
    rand::random::<u8>()
}

impl Cpu {
    /// Decimal decomposition: hundreds, tens and units of `vx` into memory
    /// at the index register and the two following addresses, the latter
    /// two wrapped modulo the memory size.
    pub fn op_fx33(&mut self, vx: u8)
        requires
            old(self).wf(),
            old(self)@.i < 4096,
        ensures
            final(self)@ == bcd_spec(old(self)@, vx),
            final(self).wf(),
    {
        let d0 = vx / 100;
        let d1 = (vx / 10) % 10;
        let d2 = vx % 10;
        self.memory.set(self.i as usize, d0);
        self.memory.set(((self.i + 1) % 4096) as usize, d1);
        self.memory.set(((self.i + 2) % 4096) as usize, d2);
        proof {
            assert(self@ =~= bcd_spec(old(self)@, vx));
        }
    }

    /// Store registers `0 ..= x` into memory at the index register, each
    /// offset wrapped modulo the memory size.
    pub fn op_fx55(&mut self, x: u16)
        requires
            old(self).wf(),
            old(self)@.i < 4096,
            x < 16,
        ensures
            final(self)@ == fx55_spec(old(self)@, x),
            final(self).wf(),
    {
        let ghost s0 = self@;
        let mut offset: u16 = 0;
        while offset < x + 1
            invariant
                offset <= x + 1,
                x < 16,
                s0.wf(),
                s0.i < 4096,
                self.i == s0.i,
                self.pc == s0.pc,
                self.sp == s0.sp,
                self.dt == s0.dt,
                self.st == s0.st,
                self.cycle_count == s0.cycle_count,
                self.v@ == s0.v,
                self.stack@ == s0.stack,
                self.keypad@ == s0.keypad,
                self.display@ == s0.display,
                self.memory@.len() == 4096,
                self.memory@ == store_seq(s0.memory, s0.v, s0.i, offset as int),
            decreases x + 1 - offset,
        {
            let val = self.v[offset as usize];
            self.memory.set(((self.i + offset) % 4096) as usize, val);
            proof {
                assert(self.memory@ =~= store_seq(s0.memory, s0.v, s0.i, offset as int + 1));
            }
            offset = offset + 1;
        }
        proof {
            assert(self@ =~= fx55_spec(s0, x));
        }
    }

    /// Load registers `0 ..= x` from memory at the index register. These
    /// addresses are not wrapped, so the last one must lie inside memory.
    pub fn op_fx65(&mut self, x: u16)
        requires
            old(self).wf(),
            old(self)@.i + x < 4096,
            x < 16,
        ensures
            final(self)@ == fx65_spec(old(self)@, x),
            final(self).wf(),
    {
        let ghost s0 = self@;
        let mut offset: u16 = 0;
        while offset < x + 1
            invariant
                offset <= x + 1,
                x < 16,
                s0.wf(),
                s0.i + x < 4096,
                self.i == s0.i,
                self.pc == s0.pc,
                self.sp == s0.sp,
                self.dt == s0.dt,
                self.st == s0.st,
                self.cycle_count == s0.cycle_count,
                self.memory@ == s0.memory,
                self.stack@ == s0.stack,
                self.keypad@ == s0.keypad,
                self.display@ == s0.display,
                self.v@.len() == 16,
                self.v@ == load_seq(s0.v, s0.memory, s0.i, offset as int),
            decreases x + 1 - offset,
        {
            let val = self.memory[(self.i + offset) as usize];
            self.v.set(offset as usize, val);
            proof {
                assert(self.v@ =~= load_seq(s0.v, s0.memory, s0.i, offset as int + 1));
            }
            offset = offset + 1;
        }
        proof {
            assert(self@ =~= fx65_spec(s0, x));
        }
    }

    /// One step with the random byte passed in: entirely deterministic, and
    /// exactly the transition [`step_spec`] describes. `rnd` is masked by
    /// the random-byte instruction and ignored by every other one.
    pub fn step_with_random(&mut self, rnd: u8) -> (r: StepEvent)
        requires
            step_ok(old(self)@),
        ensures
            final(self)@ == step_spec(old(self)@, rnd),
            final(self).wf(),
            r == (if is_known_op(fetched(old(self)@)) {
                StepEvent::Executed
            } else {
                StepEvent::Unknown(fetched(old(self)@))
            }),
    {
        let ghost pre = self@;
        let opcode = read_word(&self.memory, self.pc);
        self.pc = self.pc + 2;
        self.cycle_count = (self.cycle_count + 1) % 16;

        let op1 = opcode >> 12;
        let op2 = (opcode & 0x0F00) >> 8;
        let op3 = (opcode & 0x00F0) >> 4;
        let op4 = opcode & 0x000F;

        proof {
            assert(op1 == op_nib1(opcode) && op2 == op_nib2(opcode) && op3 == op_nib3(opcode)
                && op4 == op_nib4(opcode));
            assert((opcode & 0x0F00) >> 8 < 16 && (opcode & 0x00F0) >> 4 < 16 && (opcode & 0x000F)
                < 16 && (opcode & 0x0FFF) < 4096) by (bit_vector);
        }

        let x = op2 as usize;
        let y = op3 as usize;
        let vx = self.v[x];
        let vy = self.v[y];
        let nnn = opcode & 0x0FFF;
        let kk = (opcode & 0x00FF) as u8;

        self.i = self.i % 4096;

        let ghost s1 = self@;
        proof {
            assert(s1 =~= pre_exec(pre));
            assert(opcode == fetched(pre));
        }

        let mut event = StepEvent::Executed;

        if op1 == 0 && op2 == 0 && op3 == 0xE && op4 == 0 {
            // clear the display
            self.clear_display();
            proof {
                assert(self.display@ =~= exec_op(s1, opcode, rnd).display);
                assert(self@ =~= exec_op(s1, opcode, rnd));
            }
        } else if op1 == 0 && op2 == 0 && op3 == 0xE && op4 == 0xE {
            // return from a call; the stack pointer wraps downward
            self.pc = self.stack[self.sp as usize];
            self.sp = (self.sp + 15) % 16;
            proof {
                assert(self@ =~= exec_op(s1, opcode, rnd));
            }
        } else if op1 == 1 {
            // jump
            self.pc = nnn;
            proof {
                assert(self@ =~= exec_op(s1, opcode, rnd));
            }
        } else if op1 == 2 {
            // call: the stack pointer wraps upward, then the return address
            // is pushed
            self.sp = (self.sp + 1) % 16;
            let ret = self.pc;
            self.stack.set(self.sp as usize, ret);
            self.pc = nnn;
            proof {
                assert(self@ =~= exec_op(s1, opcode, rnd));
            }
        } else if op1 == 3 {
            // skip if register x equals the immediate
            if vx == kk {
                self.pc = self.pc + 2;
            }
            proof {
                assert(self@ =~= exec_op(s1, opcode, rnd));
            }
        } else if op1 == 4 {
            // skip if register x differs from the immediate
            if vx != kk {
                self.pc = self.pc + 2;
            }
            proof {
                assert(self@ =~= exec_op(s1, opcode, rnd));
            }
        } else if op1 == 5 && op4 == 0 {
            // skip if registers x and y are equal
            if vx == vy {
                self.pc = self.pc + 2;
            }
            proof {
                assert(self@ =~= exec_op(s1, opcode, rnd));
            }
        } else if op1 == 6 {
            // load immediate
            self.v.set(x, kk);
            proof {
                assert(self@ =~= exec_op(s1, opcode, rnd));
            }
        } else if op1 == 7 {
            // add immediate, wrapping, no flag
            let sum = ((vx as u16 + kk as u16) % 256) as u8;
            self.v.set(x, sum);
            proof {
                assert(self@ =~= exec_op(s1, opcode, rnd));
            }
        } else if op1 == 8 && op4 == 0 {
            self.v.set(x, vy);
            proof {
                assert(self@ =~= exec_op(s1, opcode, rnd));
            }
        } else if op1 == 8 && op4 == 1 {
            self.v.set(x, vx | vy);
            proof {
                assert(self@ =~= exec_op(s1, opcode, rnd));
            }
        } else if op1 == 8 && op4 == 2 {
            self.v.set(x, vx & vy);
            proof {
                assert(self@ =~= exec_op(s1, opcode, rnd));
            }
        } else if op1 == 8 && op4 == 3 {
            self.v.set(x, vx ^ vy);
            proof {
                assert(self@ =~= exec_op(s1, opcode, rnd));
            }
        } else if op1 == 8 && op4 == 4 {
            // add registers: the flag reports the carry, then x takes the sum
            let wide = vx as u16 + vy as u16;
            let flag: u8 = if wide > 255 {
                1
            } else {
                0
            };
            self.v.set(0xF, flag);
            self.v.set(x, (wide % 256) as u8);
            proof {
                assert(self@ =~= exec_op(s1, opcode, rnd));
            }
        } else if op1 == 8 && op4 == 5 {
            // subtract y from x: the flag reports x > y
            let flag: u8 = if vx > vy {
                1
            } else {
                0
            };
            self.v.set(0xF, flag);
            self.v.set(x, ((vx as u16 + 256 - vy as u16) % 256) as u8);
            proof {
                assert(self@ =~= exec_op(s1, opcode, rnd));
            }
        } else if op1 == 8 && op4 == 6 {
            // shift right: the flag takes the low bit first
            self.v.set(0xF, vx & 1);
            let cur = self.v[x];
            self.v.set(x, cur >> 1);
            proof {
                assert(self@ =~= exec_op(s1, opcode, rnd));
            }
        } else if op1 == 8 && op4 == 7 {
            // subtract x from y: the flag reports y > x
            let flag: u8 = if vy > vx {
                1
            } else {
                0
            };
            self.v.set(0xF, flag);
            self.v.set(x, ((vy as u16 + 256 - vx as u16) % 256) as u8);
            proof {
                assert(self@ =~= exec_op(s1, opcode, rnd));
            }
        } else if op1 == 8 && op4 == 0xE {
            // shift left: the flag takes the high bit first
            self.v.set(0xF, (vx >> 7) & 1);
            let cur = self.v[x];
            self.v.set(x, cur << 1);
            proof {
                assert(self@ =~= exec_op(s1, opcode, rnd));
            }
        } else if op1 == 9 && op4 == 0 {
            // skip if registers x and y differ
            if vx != vy {
                self.pc = self.pc + 2;
            }
            proof {
                assert(self@ =~= exec_op(s1, opcode, rnd));
            }
        } else if op1 == 0xA {
            // load the index register
            self.i = nnn;
            proof {
                assert(self@ =~= exec_op(s1, opcode, rnd));
            }
        } else if op1 == 0xB {
            // jump with register-0 offset
            self.pc = nnn + self.v[0] as u16;
            proof {
                assert(self@ =~= exec_op(s1, opcode, rnd));
            }
        } else if op1 == 0xC {
            // random byte masked by the immediate
            self.v.set(x, rnd & kk);
            proof {
                assert(self@ =~= exec_op(s1, opcode, rnd));
            }
        } else if op1 == 0xD {
            // draw a sprite of height op4 at (register x, register y)
            self.draw(op4, vx as u16, vy as u16);
            proof {
                assert(self@ =~= exec_op(s1, opcode, rnd));
            }
        } else if op1 == 0xE && op3 == 9 && op4 == 0xE {
            // skip if the key numbered by register x is pressed
            if self.keypad[vx as usize] {
                self.pc = self.pc + 2;
            }
            proof {
                assert(self@ =~= exec_op(s1, opcode, rnd));
            }
        } else if op1 == 0xE && op3 == 0xA && op4 == 1 {
            // this machine tests the same pressed condition for both
            // key-skip patterns: this one also skips when the key is pressed
            if self.keypad[vx as usize] {
                self.pc = self.pc + 2;
            }
            proof {
                assert(self@ =~= exec_op(s1, opcode, rnd));
            }
        } else if op1 == 0xF && op3 == 0 && op4 == 7 {
            // read the delay timer
            let dt = self.dt;
            self.v.set(x, dt);
            proof {
                assert(self@ =~= exec_op(s1, opcode, rnd));
            }
        } else if op1 == 0xF && op3 == 0 && op4 == 0xA {
            // wait-for-key performs no state change in this machine
            proof {
                assert(self@ =~= exec_op(s1, opcode, rnd));
            }
        } else if op1 == 0xF && op3 == 1 && op4 == 5 {
            // set the delay timer
            self.dt = vx;
            proof {
                assert(self@ =~= exec_op(s1, opcode, rnd));
            }
        } else if op1 == 0xF && op3 == 1 && op4 == 8 {
            // set the sound timer
            self.st = vx;
            proof {
                assert(self@ =~= exec_op(s1, opcode, rnd));
            }
        } else if op1 == 0xF && op3 == 1 && op4 == 0xE {
            // add register x to the index register
            self.i = self.i + vx as u16;
            proof {
                assert(self@ =~= exec_op(s1, opcode, rnd));
            }
        } else if op1 == 0xF && op3 == 2 && op4 == 9 {
            // glyph address: five bytes per character
            self.i = vx as u16 * 5;
            proof {
                assert(self@ =~= exec_op(s1, opcode, rnd));
            }
        } else if op1 == 0xF && op3 == 3 && op4 == 3 {
            self.op_fx33(vx);
            proof {
                assert(self@ =~= exec_op(s1, opcode, rnd));
            }
        } else if op1 == 0xF && op3 == 5 && op4 == 5 {
            self.op_fx55(op2);
            proof {
                assert(self@ =~= exec_op(s1, opcode, rnd));
            }
        } else if op1 == 0xF && op3 == 6 && op4 == 5 {
            self.op_fx65(op2);
            proof {
                assert(self@ =~= exec_op(s1, opcode, rnd));
            }
        } else {
            // unknown instruction: report it, change nothing
            event = StepEvent::Unknown(opcode);
            proof {
                assert(self@ =~= exec_op(s1, opcode, rnd));
                assert(!is_known_op(opcode));
            }
        }

        let ghost s2 = self@;
        proof {
            assert(s2 == exec_op(s1, opcode, rnd));
        }

        if self.cycle_count + 1 == 16 && self.dt > 0 {
            self.dt = self.dt - 1;
        }
        proof {
            assert(self@ =~= tick(s2));
            assert(self@ == step_spec(pre, rnd));
        }
        event
    }

    /// Turn every pixel off.
    fn clear_display(&mut self)
        requires
            old(self).wf(),
        ensures
            final(self)@ == (CpuView { display: Seq::new(4096, |p: int| false), ..old(self)@ }),
            final(self).wf(),
    {
        let mut k: usize = 0;
        let ghost s0 = self@;
        while k < 4096
            invariant
                k <= 4096,
                self.display@.len() == 4096,
                forall|p: int| 0 <= p < k ==> !self.display@[p],
                forall|p: int| k <= p < 4096 ==> self.display@[p] == s0.display[p],
                self.i == s0.i,
                self.pc == s0.pc,
                self.sp == s0.sp,
                self.dt == s0.dt,
                self.st == s0.st,
                self.cycle_count == s0.cycle_count,
                self.memory@ == s0.memory,
                self.v@ == s0.v,
                self.stack@ == s0.stack,
                self.keypad@ == s0.keypad,
                s0.wf(),
            decreases 4096 - k,
        {
            self.display.set(k, false);
            k = k + 1;
        }
        proof {
            assert(self.display@ =~= Seq::new(4096, |p: int| false));
            assert(self@ =~= (CpuView { display: Seq::new(4096, |p: int| false), ..s0 }));
        }
    }

    /// One fetch-decode-execute step, drawing the byte for the random-byte
    /// instruction from the process random source. Whatever byte comes back,
    /// the result is [`step_spec`] of the old state for some byte; every
    /// instruction other than the random-byte one ignores it.
    pub fn emulate_cycle(&mut self) -> (r: StepEvent)
        requires
            step_ok(old(self)@),
        ensures
            exists|rnd: u8| final(self)@ == step_spec(old(self)@, rnd),
            op_nib1(fetched(old(self)@)) != 0xC ==> final(self)@ == step_spec(old(self)@, 0),
            final(self).wf(),
            r == (if is_known_op(fetched(old(self)@)) {
                StepEvent::Executed
            } else {
                StepEvent::Unknown(fetched(old(self)@))
            }),
    {
        let rnd = random_byte();
        let event = self.step_with_random(rnd);
        proof {
            assert(self@ == step_spec(old(self)@, rnd));
            if op_nib1(fetched(old(self)@)) != 0xC {
                crate::laws::lemma_step_random_irrelevant(old(self)@, rnd, 0);
            }
        }
        event
    }
}

} // verus!
