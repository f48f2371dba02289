use vstd::prelude::*;

use crate::decode::{decode, decode_s, Instr};
use crate::draw::{
    draw_collision, draw_rel, covered_part, lemma_target_in_range, lemma_target_inj, sprite_bit,
    target,
};
use crate::{Flow, VmError};

verus! {

/// The delay and sound timers count down by one per executed instruction
/// and stop at zero.
pub open spec fn dec8(t: u8) -> u8 {
    if t > 0 {
        (t - 1) as u8
    } else {
        0
    }
}

/// 8-bit wrapping sum.
pub open spec fn add8(a: u8, b: u8) -> u8 {
    ((a + b) % 256) as u8
}

/// Carry out of an 8-bit sum: 1 exactly when `a + b` overflows a byte.
pub open spec fn carry8(a: u8, b: u8) -> u8 {
    if a + b >= 256 {
        1
    } else {
        0
    }
}

/// 8-bit wrapping difference `a - b`.
pub open spec fn sub8(a: u8, b: u8) -> u8 {
    ((a - b + 256) % 256) as u8
}

/// Flag of the subtract family: 1 exactly when no borrow occurred.
pub open spec fn noborrow8(a: u8, b: u8) -> u8 {
    if a >= b {
        1
    } else {
        0
    }
}

/// Flag of the reverse subtract family: 1 exactly when a borrow occurred.
pub open spec fn borrow8(a: u8, b: u8) -> u8 {
    if a < b {
        1
    } else {
        0
    }
}

/// Byte shifted right by one.
pub open spec fn shr8(a: u8) -> u8 {
    (a / 2) as u8
}

/// Low bit of a byte, the flag of a right shift.
pub open spec fn lobit8(a: u8) -> u8 {
    (a % 2) as u8
}

/// Byte shifted left by one, wrapping modulo 256.
pub open spec fn shl8(a: u8) -> u8 {
    ((a * 2) % 256) as u8
}

/// High bit of a byte, the flag of a left shift.
pub open spec fn hibit8(a: u8) -> u8 {
    (a / 128) as u8
}

/// The big-endian 16-bit instruction word stored at address `p`.
pub open spec fn word_at(mem: Seq<u8>, p: int) -> u16 {
    (mem[p] * 256 + mem[p + 1]) as u16
}

/// The machine: register file, memory, call stack, program counter,
/// index register, timers, keypad snapshot, and display buffer.
/// The display is stored row-major: the pixel at row `r`, column `c`
/// lives at `display[r * 64 + c]`.
pub struct CPU {
    pub pc: usize,
    pub regs: Vec<u8>,
    pub memory: Vec<u8>,
    pub stack: Vec<u16>,
    pub sp: usize,
    pub index: u16,
    pub delay_timer: u8,
    pub sound_timer: u8,
    pub keyboard: Vec<bool>,
    pub display: Vec<bool>,
}

impl CPU {
    /// Shape invariant: 16 registers, 4096 bytes of memory, 16 stack
    /// slots with the pointer inside them, 16 keys, and a 32 x 64 display.
    pub open spec fn wf(&self) -> bool {
        &&& self.regs@.len() == 16
        &&& self.memory@.len() == 4096
        &&& self.stack@.len() == 16
        &&& self.sp <= 16
        &&& self.keyboard@.len() == 16
        &&& self.display@.len() == 2048
    }

    /// The two machine states hold exactly the same values.
    pub open spec fn same_state(pre: CPU, post: CPU) -> bool {
        &&& post.pc == pre.pc
        &&& post.regs@ == pre.regs@
        &&& post.memory@ == pre.memory@
        &&& post.stack@ == pre.stack@
        &&& post.sp == pre.sp
        &&& post.index == pre.index
        &&& post.delay_timer == pre.delay_timer
        &&& post.sound_timer == pre.sound_timer
        &&& post.keyboard@ == pre.keyboard@
        &&& post.display@ == pre.display@
    }

    /// Everything but the program counter and the registers is unchanged.
    pub open spec fn keeps_rest(pre: CPU, post: CPU) -> bool {
        &&& post.memory@ == pre.memory@
        &&& post.stack@ == pre.stack@
        &&& post.sp == pre.sp
        &&& post.index == pre.index
        &&& post.delay_timer == pre.delay_timer
        &&& post.sound_timer == pre.sound_timer
        &&& post.keyboard@ == pre.keyboard@
        &&& post.display@ == pre.display@
    }

    /// A fetch happened and nothing else: the program counter moved past
    /// one instruction word and every other part of the state is intact.
    pub open spec fn fetched(pre: CPU, post: CPU) -> bool {
        &&& post.pc == pre.pc + 2
        &&& post.regs@ == pre.regs@
        &&& CPU::keeps_rest(pre, post)
    }

    /// A fresh machine: all-zero state except the program counter, which
    /// starts at the base of the program area.
    pub fn new() -> (c: CPU)
        ensures
            c.wf(),
            c.pc == 0x200,
            forall|i: int| 0 <= i < 16 ==> c.regs@[i] == 0,
            forall|i: int| 0 <= i < 4096 ==> c.memory@[i] == 0,
            forall|i: int| 0 <= i < 16 ==> c.stack@[i] == 0,
            c.sp == 0,
            c.index == 0,
            c.delay_timer == 0,
            c.sound_timer == 0,
            forall|i: int| 0 <= i < 16 ==> !c.keyboard@[i],
            forall|i: int| 0 <= i < 2048 ==> !c.display@[i],
    {
        CPU {
            pc: 0x200,
            regs: filled(16, 0u8),
            memory: filled(4096, 0u8),
            stack: filled(16, 0u16),
            sp: 0,
            index: 0,
            delay_timer: 0,
            sound_timer: 0,
            keyboard: filled(16, false),
            display: filled(2048, false),
        }
    }

    /// Copy a program image into memory starting at the program base
    /// address 0x200. An image larger than the space above the reserved
    /// region is rejected whole.
    pub fn load_program(&mut self, prog: &[u8]) -> (r: Result<(), VmError>)
        requires
            old(self).wf(),
        ensures
            final(self).wf(),
            prog@.len() > 3584 ==> (r == Err::<(), VmError>(VmError::ProgramTooLarge)
                && CPU::same_state(*old(self), *final(self))),
            prog@.len() <= 3584 ==> (r == Ok::<(), VmError>(()) && final(self).pc == old(self).pc
                && final(self).regs@ == old(self).regs@
                && final(self).stack@ == old(self).stack@ && final(self).sp == old(self).sp
                && final(self).index == old(self).index
                && final(self).delay_timer == old(self).delay_timer
                && final(self).sound_timer == old(self).sound_timer
                && final(self).keyboard@ == old(self).keyboard@
                && final(self).display@ == old(self).display@
                && final(self).memory@.len() == 4096 && (forall|j: int|
                0 <= j < 4096 ==> final(self).memory@[j] == if 0x200 <= j < 0x200 + prog@.len() {
                    prog@[j - 0x200]
                } else {
                    old(self).memory@[j]
                })),
    {
        if prog.len() > 3584 {
            return Err(VmError::ProgramTooLarge);
        }
        let mut i: usize = 0;
        while i < prog.len()
            invariant
                self.wf(),
                i <= prog@.len(),
                prog@.len() <= 3584,
                self.pc == old(self).pc,
                self.regs@ == old(self).regs@,
                self.stack@ == old(self).stack@,
                self.sp == old(self).sp,
                self.index == old(self).index,
                self.delay_timer == old(self).delay_timer,
                self.sound_timer == old(self).sound_timer,
                self.keyboard@ == old(self).keyboard@,
                self.display@ == old(self).display@,
                forall|j: int|
                    0 <= j < 4096 ==> self.memory@[j] == if 0x200 <= j < 0x200 + i {
                        prog@[j - 0x200]
                    } else {
                        old(self).memory@[j]
                    },
            decreases prog@.len() - i,
        {
            self.memory.set(0x200 + i, prog[i]);
            i = i + 1;
        }
        Ok(())
    }

    /// Fetch: read the two bytes at the program counter as one big-endian
    /// instruction word and advance the counter past them. A fetch that
    /// would read past memory is a fatal out-of-bounds access and leaves
    /// the machine untouched.
    pub fn next(&mut self) -> (r: Result<u16, VmError>)
        requires
            old(self).wf(),
        ensures
            final(self).wf(),
            old(self).pc + 2 <= 4096 ==> (r == Ok::<u16, VmError>(word_at(
                old(self).memory@,
                old(self).pc as int,
            )) && CPU::fetched(*old(self), *final(self))),
            old(self).pc + 2 > 4096 ==> (r == Err::<u16, VmError>(VmError::OutOfBoundsAccess)
                && CPU::same_state(*old(self), *final(self))),
    {
        if self.pc > 4094 {
            return Err(VmError::OutOfBoundsAccess);
        }
        let b1 = self.memory[self.pc];
        let b2 = self.memory[self.pc + 1];
        self.pc = self.pc + 2;
        Ok((b1 as u16) * 256 + (b2 as u16))
    }

    /// Clear the display: every pixel goes dark; nothing else changes.
    pub fn cls(&mut self)
        requires
            old(self).wf(),
        ensures
            final(self).wf(),
            final(self).pc == old(self).pc,
            final(self).regs@ == old(self).regs@,
            final(self).memory@ == old(self).memory@,
            final(self).stack@ == old(self).stack@,
            final(self).sp == old(self).sp,
            final(self).index == old(self).index,
            final(self).delay_timer == old(self).delay_timer,
            final(self).sound_timer == old(self).sound_timer,
            final(self).keyboard@ == old(self).keyboard@,
            final(self).display@.len() == 2048,
            forall|p: int| 0 <= p < 2048 ==> !final(self).display@[p],
    {
        let mut p: usize = 0;
        while p < 2048
            invariant
                self.wf(),
                p <= 2048,
                self.pc == old(self).pc,
                self.regs@ == old(self).regs@,
                self.memory@ == old(self).memory@,
                self.stack@ == old(self).stack@,
                self.sp == old(self).sp,
                self.index == old(self).index,
                self.delay_timer == old(self).delay_timer,
                self.sound_timer == old(self).sound_timer,
                self.keyboard@ == old(self).keyboard@,
                forall|j: int| 0 <= j < p ==> !self.display@[j],
            decreases 2048 - p,
        {
            self.display.set(p, false);
            p = p + 1;
        }
    }

    /// Call: push the current program counter as the return address and
    /// jump to the target. With all 16 slots in use the call is a fatal
    /// stack overflow and the machine is untouched.
    pub fn call(&mut self, addr: u16) -> (r: Result<(), VmError>)
        requires
            old(self).wf(),
            old(self).pc <= 0xFFFF,
        ensures
            final(self).wf(),
            old(self).sp == 16 ==> (r == Err::<(), VmError>(VmError::StackOverflow)
                && CPU::same_state(*old(self), *final(self))),
            old(self).sp < 16 ==> (r == Ok::<(), VmError>(()) && final(self).pc == addr
                && final(self).regs@ == old(self).regs@ && final(self).stack@
                == old(self).stack@.update(old(self).sp as int, old(self).pc as u16)
                && final(self).sp == old(self).sp + 1 && final(self).memory@ == old(self).memory@
                && final(self).index == old(self).index && final(self).delay_timer
                == old(self).delay_timer && final(self).sound_timer == old(self).sound_timer
                && final(self).keyboard@ == old(self).keyboard@ && final(self).display@
                == old(self).display@),
    {
        if self.sp == 16 {
            return Err(VmError::StackOverflow);
        }
        self.stack.set(self.sp, self.pc as u16);
        self.sp = self.sp + 1;
        self.pc = addr as usize;
        Ok(())
    }

    /// Return: pop the top return address into the program counter. With
    /// an empty stack the return is a fatal stack underflow and the
    /// machine is untouched.
    pub fn ret(&mut self) -> (r: Result<(), VmError>)
        requires
            old(self).wf(),
        ensures
            final(self).wf(),
            old(self).sp == 0 ==> (r == Err::<(), VmError>(VmError::StackUnderflow)
                && CPU::same_state(*old(self), *final(self))),
            old(self).sp > 0 ==> (r == Ok::<(), VmError>(())
                && final(self).pc == old(self).stack@[old(self).sp - 1]
                && final(self).regs@ == old(self).regs@
                && final(self).stack@ == old(self).stack@
                && final(self).sp == old(self).sp - 1
                && final(self).memory@ == old(self).memory@
                && final(self).index == old(self).index
                && final(self).delay_timer == old(self).delay_timer
                && final(self).sound_timer == old(self).sound_timer
                && final(self).keyboard@ == old(self).keyboard@
                && final(self).display@ == old(self).display@),
    {
        if self.sp == 0 {
            return Err(VmError::StackUnderflow);
        }
        self.sp = self.sp - 1;
        self.pc = self.stack[self.sp] as usize;
        Ok(())
    }

    /// Jump: set the program counter to the target address.
    pub fn jmp(&mut self, addr: u16)
        requires
            old(self).wf(),
        ensures
            final(self).wf(),
            final(self).pc == addr,
            final(self).regs@ == old(self).regs@,
            CPU::keeps_rest(*old(self), *final(self)),
    {
        self.pc = addr as usize;
    }

    /// Skip the next instruction when register `reg` equals the byte.
    pub fn se(&mut self, reg: usize, byte: u8)
        requires
            old(self).wf(),
            reg < 16,
            old(self).pc + 2 <= usize::MAX,
        ensures
            final(self).wf(),
            final(self).pc == old(self).pc + (if old(self).regs@[reg as int] == byte {
                2int
            } else {
                0int
            }),
            final(self).regs@ == old(self).regs@,
            CPU::keeps_rest(*old(self), *final(self)),
    {
        if self.regs[reg] == byte {
            self.pc = self.pc + 2;
        }
    }

    /// Skip the next instruction when register `reg` differs from the byte.
    pub fn sne(&mut self, reg: usize, byte: u8)
        requires
            old(self).wf(),
            reg < 16,
            old(self).pc + 2 <= usize::MAX,
        ensures
            final(self).wf(),
            final(self).pc == old(self).pc + (if old(self).regs@[reg as int] != byte {
                2int
            } else {
                0int
            }),
            final(self).regs@ == old(self).regs@,
            CPU::keeps_rest(*old(self), *final(self)),
    {
        if self.regs[reg] != byte {
            self.pc = self.pc + 2;
        }
    }

    /// Skip the next instruction when registers `x` and `y` are equal.
    pub fn se_xy(&mut self, x: usize, y: usize)
        requires
            old(self).wf(),
            x < 16,
            y < 16,
            old(self).pc + 2 <= usize::MAX,
        ensures
            final(self).wf(),
            final(self).pc == old(self).pc + (if old(self).regs@[x as int] == old(self).regs@[y as int] {
                2int
            } else {
                0int
            }),
            final(self).regs@ == old(self).regs@,
            CPU::keeps_rest(*old(self), *final(self)),
    {
        if self.regs[x] == self.regs[y] {
            self.pc = self.pc + 2;
        }
    }

    /// Skip the next instruction when registers `x` and `y` differ.
    pub fn sne_xy(&mut self, x: usize, y: usize)
        requires
            old(self).wf(),
            x < 16,
            y < 16,
            old(self).pc + 2 <= usize::MAX,
        ensures
            final(self).wf(),
            final(self).pc == old(self).pc + (if old(self).regs@[x as int] != old(self).regs@[y as int] {
                2int
            } else {
                0int
            }),
            final(self).regs@ == old(self).regs@,
            CPU::keeps_rest(*old(self), *final(self)),
    {
        if self.regs[x] != self.regs[y] {
            self.pc = self.pc + 2;
        }
    }

    /// Load the immediate byte into register `x`; no flag side effect.
    pub fn ld_x(&mut self, x: usize, byte: u8)
        requires
            old(self).wf(),
            x < 16,
        ensures
            final(self).wf(),
            final(self).pc == old(self).pc,
            final(self).regs@ == old(self).regs@.update(x as int, byte),
            CPU::keeps_rest(*old(self), *final(self)),
    {
        self.regs.set(x, byte);
    }

    /// Add the immediate byte to register `x`, wrapping on overflow; the
    /// flag register is not touched.
    pub fn add_x(&mut self, x: usize, byte: u8)
        requires
            old(self).wf(),
            x < 16,
        ensures
            final(self).wf(),
            final(self).pc == old(self).pc,
            final(self).regs@ == old(self).regs@.update(x as int, add8(old(self).regs@[x as int], byte)),
            CPU::keeps_rest(*old(self), *final(self)),
    {
        let a = self.regs[x];
        let sum: u16 = a as u16 + byte as u16;
        self.regs.set(x, (sum % 256) as u8);
    }

    /// Copy register `y` into register `x`; no flag side effect.
    pub fn ld_xy(&mut self, x: usize, y: usize)
        requires
            old(self).wf(),
            x < 16,
            y < 16,
        ensures
            final(self).wf(),
            final(self).pc == old(self).pc,
            final(self).regs@ == old(self).regs@.update(x as int, old(self).regs@[y as int]),
            CPU::keeps_rest(*old(self), *final(self)),
    {
        let v = self.regs[y];
        self.regs.set(x, v);
    }

    /// Bitwise or of registers `x` and `y` into `x`; no flag side effect.
    pub fn or_xy(&mut self, x: usize, y: usize)
        requires
            old(self).wf(),
            x < 16,
            y < 16,
        ensures
            final(self).wf(),
            final(self).pc == old(self).pc,
            final(self).regs@ == old(self).regs@.update(
                x as int,
                old(self).regs@[x as int] | old(self).regs@[y as int],
            ),
            CPU::keeps_rest(*old(self), *final(self)),
    {
        let v = self.regs[x] | self.regs[y];
        self.regs.set(x, v);
    }

    /// Bitwise and of registers `x` and `y` into `x`; no flag side effect.
    pub fn and_xy(&mut self, x: usize, y: usize)
        requires
            old(self).wf(),
            x < 16,
            y < 16,
        ensures
            final(self).wf(),
            final(self).pc == old(self).pc,
            final(self).regs@ == old(self).regs@.update(
                x as int,
                old(self).regs@[x as int] & old(self).regs@[y as int],
            ),
            CPU::keeps_rest(*old(self), *final(self)),
    {
        let v = self.regs[x] & self.regs[y];
        self.regs.set(x, v);
    }

    /// Bitwise xor of registers `x` and `y` into `x`; no flag side effect.
    pub fn xor_xy(&mut self, x: usize, y: usize)
        requires
            old(self).wf(),
            x < 16,
            y < 16,
        ensures
            final(self).wf(),
            final(self).pc == old(self).pc,
            final(self).regs@ == old(self).regs@.update(
                x as int,
                old(self).regs@[x as int] ^ old(self).regs@[y as int],
            ),
            CPU::keeps_rest(*old(self), *final(self)),
    {
        let v = self.regs[x] ^ self.regs[y];
        self.regs.set(x, v);
    }

    /// Wrapping add of registers `x` and `y` into `x`; the flag register
    /// receives the carry, written last even when `x` is the flag itself.
    pub fn add_xy(&mut self, x: u8, y: u8)
        requires
            old(self).wf(),
            x < 16,
            y < 16,
        ensures
            final(self).wf(),
            final(self).pc == old(self).pc,
            final(self).regs@ == old(self).regs@.update(
                x as int,
                add8(old(self).regs@[x as int], old(self).regs@[y as int]),
            ).update(15, carry8(old(self).regs@[x as int], old(self).regs@[y as int])),
            CPU::keeps_rest(*old(self), *final(self)),
    {
        let a = self.regs[x as usize];
        let b = self.regs[y as usize];
        let sum: u16 = a as u16 + b as u16;
        self.regs.set(x as usize, (sum % 256) as u8);
        self.regs.set(15, if sum >= 256 { 1 } else { 0 });
    }

    /// Wrapping subtract `x - y` into `x`; the flag register receives 1
    /// exactly when no borrow occurred (`x >= y`), written last.
    pub fn sub_xy(&mut self, x: u8, y: u8)
        requires
            old(self).wf(),
            x < 16,
            y < 16,
        ensures
            final(self).wf(),
            final(self).pc == old(self).pc,
            final(self).regs@ == old(self).regs@.update(
                x as int,
                sub8(old(self).regs@[x as int], old(self).regs@[y as int]),
            ).update(15, noborrow8(old(self).regs@[x as int], old(self).regs@[y as int])),
            CPU::keeps_rest(*old(self), *final(self)),
    {
        let a = self.regs[x as usize];
        let b = self.regs[y as usize];
        let diff: u16 = (a as u16 + 256 - b as u16) % 256;
        self.regs.set(x as usize, diff as u8);
        self.regs.set(15, if a >= b { 1 } else { 0 });
    }

    /// Shift register `x` right by one; the flag register receives the
    /// pre-shift low bit, written last.
    pub fn shr_x(&mut self, x: usize)
        requires
            old(self).wf(),
            x < 16,
        ensures
            final(self).wf(),
            final(self).pc == old(self).pc,
            final(self).regs@ == old(self).regs@.update(x as int, shr8(old(self).regs@[x as int])).update(
                15,
                lobit8(old(self).regs@[x as int]),
            ),
            CPU::keeps_rest(*old(self), *final(self)),
    {
        let a = self.regs[x];
        self.regs.set(x, a / 2);
        self.regs.set(15, a % 2);
    }

    /// Wrapping subtract `x - y` into `x`; the flag register receives 1
    /// exactly when a borrow occurred (`x < y`), written last.
    pub fn subn_xy(&mut self, x: usize, y: usize)
        requires
            old(self).wf(),
            x < 16,
            y < 16,
        ensures
            final(self).wf(),
            final(self).pc == old(self).pc,
            final(self).regs@ == old(self).regs@.update(
                x as int,
                sub8(old(self).regs@[x as int], old(self).regs@[y as int]),
            ).update(15, borrow8(old(self).regs@[x as int], old(self).regs@[y as int])),
            CPU::keeps_rest(*old(self), *final(self)),
    {
        let a = self.regs[x];
        let b = self.regs[y];
        let diff: u16 = (a as u16 + 256 - b as u16) % 256;
        self.regs.set(x, diff as u8);
        self.regs.set(15, if a < b { 1 } else { 0 });
    }

    /// Shift register `x` left by one, wrapping modulo 256; the flag
    /// register receives the pre-shift high bit, written last.
    pub fn shl_x(&mut self, x: usize)
        requires
            old(self).wf(),
            x < 16,
        ensures
            final(self).wf(),
            final(self).pc == old(self).pc,
            final(self).regs@ == old(self).regs@.update(x as int, shl8(old(self).regs@[x as int])).update(
                15,
                hibit8(old(self).regs@[x as int]),
            ),
            CPU::keeps_rest(*old(self), *final(self)),
    {
        let a = self.regs[x];
        let doubled: u16 = (a as u16 * 2) % 256;
        self.regs.set(x, doubled as u8);
        self.regs.set(15, a / 128);
    }

    /// Load the 12-bit address into the index register.
    pub fn ld_i(&mut self, val: u16)
        requires
            old(self).wf(),
        ensures
            final(self).wf(),
            final(self).pc == old(self).pc,
            final(self).regs@ == old(self).regs@,
            final(self).index == val,
            final(self).memory@ == old(self).memory@,
            final(self).stack@ == old(self).stack@,
            final(self).sp == old(self).sp,
            final(self).delay_timer == old(self).delay_timer,
            final(self).sound_timer == old(self).sound_timer,
            final(self).keyboard@ == old(self).keyboard@,
            final(self).display@ == old(self).display@,
    {
        self.index = val;
    }
}

/// Weight of sprite column `col` within a row byte, as a byte: the
/// executable twin of `bit_mask`.
fn mask_of(col: usize) -> (m: u8)
    requires
        col < 8,
    ensures
        m as int == crate::draw::bit_mask(col as int),
        m > 0,
{
    if col == 0 {
        128
    } else if col == 1 {
        64
    } else if col == 2 {
        32
    } else if col == 3 {
        16
    } else if col == 4 {
        8
    } else if col == 5 {
        4
    } else if col == 6 {
        2
    } else {
        1
    }
}

impl CPU {
    /// Draw the `len`-row sprite stored at the index register at the
    /// position held in registers `x` and `y`. Each sprite pixel is
    /// xor-ed onto the display with both coordinates wrapping per pixel;
    /// the flag register reports whether any lit pixel was erased. A
    /// sprite read that would reach past memory is a fatal out-of-bounds
    /// access and leaves the machine untouched.
    pub fn drw_xyn(&mut self, x: usize, y: usize, len: u8) -> (r: Result<(), VmError>)
        requires
            old(self).wf(),
            x < 16,
            y < 16,
            len <= 15,
        ensures
            final(self).wf(),
            old(self).index + len > 4096 ==> (r == Err::<(), VmError>(VmError::OutOfBoundsAccess)
                && CPU::same_state(*old(self), *final(self))),
            old(self).index + len <= 4096 ==> (r == Ok::<(), VmError>(())
                && final(self).pc == old(self).pc
                && draw_rel(
                    old(self).display@,
                    final(self).display@,
                    old(self).memory@.subrange(old(self).index as int, old(self).index + len),
                    old(self).regs@[x as int] as int,
                    old(self).regs@[y as int] as int,
                )
                && final(self).regs@ == old(self).regs@.update(
                    15,
                    if draw_collision(
                        old(self).display@,
                        old(self).memory@.subrange(old(self).index as int, old(self).index + len),
                        old(self).regs@[x as int] as int,
                        old(self).regs@[y as int] as int,
                    ) {
                        1u8
                    } else {
                        0u8
                    },
                )
                && final(self).memory@ == old(self).memory@
                && final(self).stack@ == old(self).stack@ && final(self).sp == old(self).sp
                && final(self).index == old(self).index
                && final(self).delay_timer == old(self).delay_timer
                && final(self).sound_timer == old(self).sound_timer
                && final(self).keyboard@ == old(self).keyboard@),
    {
        let idx = self.index as usize;
        if idx + len as usize > 4096 {
            return Err(VmError::OutOfBoundsAccess);
        }
        let vx = self.regs[x];
        let vy = self.regs[y];
        let ghost rows = self.memory@.subrange(idx as int, idx + len);
        let mut coll: bool = false;
        let mut row: usize = 0;
        while row < len as usize
            invariant
                self.wf(),
                old(self).wf(),
                x < 16,
                y < 16,
                len <= 15,
                row <= len,
                idx == old(self).index,
                idx + len <= 4096,
                vx == old(self).regs@[x as int],
                vy == old(self).regs@[y as int],
                self.pc == old(self).pc,
                self.regs@ == old(self).regs@,
                self.memory@ == old(self).memory@,
                self.stack@ == old(self).stack@,
                self.sp == old(self).sp,
                self.index == old(self).index,
                self.delay_timer == old(self).delay_timer,
                self.sound_timer == old(self).sound_timer,
                self.keyboard@ == old(self).keyboard@,
                self.display@.len() == 2048,
                forall|rr: int, cc: int|
                    0 <= rr < row && 0 <= cc < 8 ==> self.display@[#[trigger] target(
                        vx as int,
                        vy as int,
                        rr,
                        cc,
                    )] == (old(self).display@[target(vx as int, vy as int, rr, cc)] != sprite_bit(
                        old(self).memory@[idx + rr],
                        cc,
                    )),
                forall|p: int|
                    0 <= p < 2048 && !covered_part(vx as int, vy as int, row as int, 0, p)
                        ==> self.display@[p] == old(self).display@[p],
                coll == (exists|rr: int, cc: int|
                    0 <= rr < row && 0 <= cc < 8 && sprite_bit(old(self).memory@[idx + rr], cc)
                        && old(self).display@[#[trigger] target(vx as int, vy as int, rr, cc)]),
            decreases len - row,
        {
            let byte = self.memory[idx + row];
            let mut col: usize = 0;
            while col < 8
                invariant
                    self.wf(),
                    old(self).wf(),
                    x < 16,
                    y < 16,
                    len <= 15,
                    row < len,
                    col <= 8,
                    idx == old(self).index,
                    idx + len <= 4096,
                    vx == old(self).regs@[x as int],
                    vy == old(self).regs@[y as int],
                    byte == old(self).memory@[idx + row],
                    self.pc == old(self).pc,
                    self.regs@ == old(self).regs@,
                    self.memory@ == old(self).memory@,
                    self.stack@ == old(self).stack@,
                    self.sp == old(self).sp,
                    self.index == old(self).index,
                    self.delay_timer == old(self).delay_timer,
                    self.sound_timer == old(self).sound_timer,
                    self.keyboard@ == old(self).keyboard@,
                    self.display@.len() == 2048,
                    forall|rr: int, cc: int|
                        0 <= rr < row && 0 <= cc < 8 ==> self.display@[#[trigger] target(
                            vx as int,
                            vy as int,
                            rr,
                            cc,
                        )] == (old(self).display@[target(vx as int, vy as int, rr, cc)]
                            != sprite_bit(old(self).memory@[idx + rr], cc)),
                    forall|cc: int|
                        0 <= cc < col ==> self.display@[#[trigger] target(
                            vx as int,
                            vy as int,
                            row as int,
                            cc,
                        )] == (old(self).display@[target(vx as int, vy as int, row as int, cc)]
                            != sprite_bit(old(self).memory@[idx + row], cc)),
                    forall|p: int|
                        0 <= p < 2048 && !covered_part(
                            vx as int,
                            vy as int,
                            row as int,
                            col as int,
                            p,
                        ) ==> self.display@[p] == old(self).display@[p],
                    coll == (exists|rr: int, cc: int|
                        0 <= rr && 0 <= cc < 8 && (rr < row || (rr == row && cc < col))
                            && sprite_bit(old(self).memory@[idx + rr], cc) && old(
                            self,
                        ).display@[#[trigger] target(vx as int, vy as int, rr, cc)]),
                decreases 8 - col,
            {
                let mask = mask_of(col);
                let bit = (byte / mask) % 2 == 1;
                let prow = (vy as usize + row) % 32;
                let pcol = (vx as usize + col) % 64;
                let p = prow * 64 + pcol;
                proof {
                    assert(p == target(vx as int, vy as int, row as int, col as int));
                    lemma_target_in_range(vx as int, vy as int, row as int, col as int);
                    assert(bit == sprite_bit(byte, col as int));
                    assert forall|rr: int, cc: int|
                        0 <= rr && 0 <= cc < 8 && (rr < row || (rr == row && cc < col)) implies #[trigger] target(
                        vx as int,
                        vy as int,
                        rr,
                        cc,
                    ) != p as int by {
                        lemma_target_inj(vx as int, vy as int, rr, cc, row as int, col as int);
                    }
                    assert(!covered_part(vx as int, vy as int, row as int, col as int, p as int));
                }
                let cur = self.display[p];
                self.display.set(p, cur != bit);
                if bit && cur {
                    coll = true;
                }
                proof {
                    assert(old(self).display@[p as int] == cur);
                }
                col = col + 1;
            }
            proof {
                assert forall|p: int|
                    covered_part(vx as int, vy as int, row as int, 8, p) implies covered_part(
                    vx as int,
                    vy as int,
                    row as int + 1,
                    0,
                    p,
                ) by {
                    let (rr, cc) = choose|rr: int, cc: int|
                        0 <= rr && 0 <= cc < 8 && (rr < row || (rr == row && cc < 8)) && p
                            == target(vx as int, vy as int, rr, cc);
                    assert(0 <= rr && 0 <= cc < 8 && (rr < row as int + 1 || (rr == row as int + 1
                        && cc < 0)) && p == target(vx as int, vy as int, rr, cc));
                }
                assert forall|p: int|
                    covered_part(vx as int, vy as int, row as int + 1, 0, p) implies covered_part(
                    vx as int,
                    vy as int,
                    row as int,
                    8,
                    p,
                ) by {
                    let (rr, cc) = choose|rr: int, cc: int|
                        0 <= rr && 0 <= cc < 8 && (rr < row as int + 1 || (rr == row as int + 1 && cc
                            < 0)) && p == target(vx as int, vy as int, rr, cc);
                    assert(0 <= rr && 0 <= cc < 8 && (rr < row || (rr == row && cc < 8)) && p
                        == target(vx as int, vy as int, rr, cc));
                }
            }
            row = row + 1;
        }
        self.regs.set(15, if coll { 1 } else { 0 });
        proof {
            assert(rows.len() == len);
            assert forall|rr: int, cc: int| 0 <= rr < len && 0 <= cc < 8 implies self.display@[#[trigger] target(
                vx as int,
                vy as int,
                rr,
                cc,
            )] == (old(self).display@[target(vx as int, vy as int, rr, cc)] != sprite_bit(
                rows[rr],
                cc,
            )) by {
                assert(rows[rr] == old(self).memory@[idx + rr]);
            }
            if coll {
                let (rr, cc) = choose|rr: int, cc: int|
                    0 <= rr < len && 0 <= cc < 8 && sprite_bit(old(self).memory@[idx + rr], cc)
                        && old(self).display@[target(vx as int, vy as int, rr, cc)];
                assert(rows[rr] == old(self).memory@[idx + rr]);
                assert(draw_collision(old(self).display@, rows, vx as int, vy as int));
            }
            if !coll && draw_collision(old(self).display@, rows, vx as int, vy as int) {
                let (rr, cc) = choose|rr: int, cc: int|
                    0 <= rr < rows.len() && 0 <= cc < 8 && sprite_bit(rows[rr], cc) && old(
                        self,
                    ).display@[target(vx as int, vy as int, rr, cc)];
                assert(rows[rr] == old(self).memory@[idx + rr]);
                assert(false);
            }
        }
        Ok(())
    }
}

/// Relies on rand::random: draws a value from the thread-local generator.
/// Nothing can be promised of a random draw, so no clause is stated.
pub assume_specification<T>[ rand::random::<T> ]() -> (r: T)
    where
        rand::distr::StandardUniform: rand::distr::Distribution<T>,
;

impl CPU {
    /// Store `byte & mask` in register `x`: the deterministic tail of the
    /// random-number operation, verified for every value the generator
    /// may hand back.
    pub fn rnd_from(&mut self, x: usize, byte: u8, mask: u8)
        requires
            old(self).wf(),
            x < 16,
        ensures
            final(self).wf(),
            final(self).pc == old(self).pc,
            final(self).regs@ == old(self).regs@.update(x as int, byte & mask),
            CPU::keeps_rest(*old(self), *final(self)),
    {
        self.regs.set(x, byte & mask);
    }

    /// Draw a uniformly random byte, mask it with the immediate byte, and
    /// store the result in register `x`. Only the mask relation can be
    /// promised: some byte was drawn and `byte & mask` was stored.
    pub fn rnd(&mut self, x: usize, mask: u8)
        requires
            old(self).wf(),
            x < 16,
        ensures
            final(self).wf(),
            final(self).pc == old(self).pc,
            exists|b: u8| final(self).regs@ == old(self).regs@.update(x as int, b & mask),
            CPU::keeps_rest(*old(self), *final(self)),
    {
        let b: u8 = rand::random();
        self.rnd_from(x, b, mask);
    }

    /// Skip the next instruction when the key named by register `x`
    /// (masked to the valid range 0-15) is pressed.
    pub fn skp_x(&mut self, x: usize)
        requires
            old(self).wf(),
            x < 16,
            old(self).pc + 2 <= usize::MAX,
        ensures
            final(self).wf(),
            final(self).pc == old(self).pc + (if old(self).keyboard@[(old(self).regs@[x as int] % 16) as int] {
                2int
            } else {
                0int
            }),
            final(self).regs@ == old(self).regs@,
            CPU::keeps_rest(*old(self), *final(self)),
    {
        let k = (self.regs[x] % 16) as usize;
        if self.keyboard[k] {
            self.pc = self.pc + 2;
        }
    }

    /// Skip the next instruction when the key named by register `x`
    /// (masked to the valid range 0-15) is not pressed.
    pub fn sknp_x(&mut self, x: usize)
        requires
            old(self).wf(),
            x < 16,
            old(self).pc + 2 <= usize::MAX,
        ensures
            final(self).wf(),
            final(self).pc == old(self).pc + (if !old(self).keyboard@[(old(self).regs@[x as int] % 16) as int] {
                2int
            } else {
                0int
            }),
            final(self).regs@ == old(self).regs@,
            CPU::keeps_rest(*old(self), *final(self)),
    {
        let k = (self.regs[x] % 16) as usize;
        if !self.keyboard[k] {
            self.pc = self.pc + 2;
        }
    }

    /// Copy the delay timer into register `x`.
    pub fn ld_xdt(&mut self, x: usize)
        requires
            old(self).wf(),
            x < 16,
        ensures
            final(self).wf(),
            final(self).pc == old(self).pc,
            final(self).regs@ == old(self).regs@.update(x as int, old(self).delay_timer),
            CPU::keeps_rest(*old(self), *final(self)),
    {
        let t = self.delay_timer;
        self.regs.set(x, t);
    }

    /// One poll of the blocking key wait: scan the keypad and, if some key
    /// is down, store the lowest pressed index in register `x`. Returns
    /// whether a key was found; with none pressed the machine is untouched
    /// and the caller polls again.
    pub fn ld_xk(&mut self, x: usize) -> (found: bool)
        requires
            old(self).wf(),
            x < 16,
        ensures
            final(self).wf(),
            final(self).pc == old(self).pc,
            CPU::keeps_rest(*old(self), *final(self)),
            found == (exists|k: int| 0 <= k < 16 && old(self).keyboard@[k]),
            found ==> (exists|k: int|
                0 <= k < 16 && old(self).keyboard@[k] && (forall|j: int|
                    0 <= j < k ==> !old(self).keyboard@[j]) && final(self).regs@
                    == old(self).regs@.update(x as int, k as u8)),
            !found ==> final(self).regs@ == old(self).regs@,
    {
        let mut k: usize = 0;
        while k < 16
            invariant
                self.wf(),
                x < 16,
                k <= 16,
                CPU::same_state(*old(self), *self),
                forall|j: int| 0 <= j < k ==> !self.keyboard@[j],
            decreases 16 - k,
        {
            if self.keyboard[k] {
                self.regs.set(x, k as u8);
                return true;
            }
            k = k + 1;
        }
        false
    }

    /// Copy register `x` into the delay timer.
    pub fn ld_dtx(&mut self, x: usize)
        requires
            old(self).wf(),
            x < 16,
        ensures
            final(self).wf(),
            final(self).pc == old(self).pc,
            final(self).regs@ == old(self).regs@,
            final(self).delay_timer == old(self).regs@[x as int],
            final(self).sound_timer == old(self).sound_timer,
            final(self).memory@ == old(self).memory@,
            final(self).stack@ == old(self).stack@,
            final(self).sp == old(self).sp,
            final(self).index == old(self).index,
            final(self).keyboard@ == old(self).keyboard@,
            final(self).display@ == old(self).display@,
    {
        self.delay_timer = self.regs[x];
    }

    /// Copy register `x` into the sound timer.
    pub fn ld_st(&mut self, x: usize)
        requires
            old(self).wf(),
            x < 16,
        ensures
            final(self).wf(),
            final(self).pc == old(self).pc,
            final(self).regs@ == old(self).regs@,
            final(self).sound_timer == old(self).regs@[x as int],
            final(self).delay_timer == old(self).delay_timer,
            final(self).memory@ == old(self).memory@,
            final(self).stack@ == old(self).stack@,
            final(self).sp == old(self).sp,
            final(self).index == old(self).index,
            final(self).keyboard@ == old(self).keyboard@,
            final(self).display@ == old(self).display@,
    {
        self.sound_timer = self.regs[x];
    }

    /// Add the zero-extended value of register `x` to the index register,
    /// wrapping modulo 2^16; no flag side effect.
    pub fn add_ix(&mut self, x: usize)
        requires
            old(self).wf(),
            x < 16,
        ensures
            final(self).wf(),
            final(self).pc == old(self).pc,
            final(self).regs@ == old(self).regs@,
            final(self).index == (old(self).index + old(self).regs@[x as int]) % 0x10000,
            final(self).memory@ == old(self).memory@,
            final(self).stack@ == old(self).stack@,
            final(self).sp == old(self).sp,
            final(self).delay_timer == old(self).delay_timer,
            final(self).sound_timer == old(self).sound_timer,
            final(self).keyboard@ == old(self).keyboard@,
            final(self).display@ == old(self).display@,
    {
        let sum: u32 = self.index as u32 + self.regs[x] as u32;
        self.index = (sum % 0x10000) as u16;
    }

    /// Point the index register at the font glyph named by register `x`:
    /// the zero-extended register value, a lookup into the reserved font
    /// table that a collaborator populates.
    pub fn ld_fx(&mut self, x: usize)
        requires
            old(self).wf(),
            x < 16,
        ensures
            final(self).wf(),
            final(self).pc == old(self).pc,
            final(self).regs@ == old(self).regs@,
            final(self).index == old(self).regs@[x as int],
            final(self).memory@ == old(self).memory@,
            final(self).stack@ == old(self).stack@,
            final(self).sp == old(self).sp,
            final(self).delay_timer == old(self).delay_timer,
            final(self).sound_timer == old(self).sound_timer,
            final(self).keyboard@ == old(self).keyboard@,
            final(self).display@ == old(self).display@,
    {
        self.index = self.regs[x] as u16;
    }

    /// Store the decimal digits of register `x` at the index register:
    /// hundreds, tens, and ones at consecutive addresses. A store that
    /// would write past memory is a fatal out-of-bounds access and leaves
    /// the machine untouched.
    pub fn ld_bcd(&mut self, x: usize) -> (r: Result<(), VmError>)
        requires
            old(self).wf(),
            x < 16,
        ensures
            final(self).wf(),
            old(self).index + 2 >= 4096 ==> (r == Err::<(), VmError>(VmError::OutOfBoundsAccess)
                && CPU::same_state(*old(self), *final(self))),
            old(self).index + 2 < 4096 ==> (r == Ok::<(), VmError>(())
                && final(self).pc == old(self).pc
                && final(self).regs@ == old(self).regs@
                && final(self).memory@ == old(self).memory@.update(
                    old(self).index as int,
                    (old(self).regs@[x as int] / 100) as u8,
                ).update(
                    old(self).index + 1,
                    ((old(self).regs@[x as int] / 10) % 10) as u8,
                ).update(old(self).index + 2, (old(self).regs@[x as int] % 10) as u8)
                && final(self).stack@ == old(self).stack@ && final(self).sp == old(self).sp
                && final(self).index == old(self).index
                && final(self).delay_timer == old(self).delay_timer
                && final(self).sound_timer == old(self).sound_timer
                && final(self).keyboard@ == old(self).keyboard@
                && final(self).display@ == old(self).display@),
    {
        if self.index > 4093 {
            return Err(VmError::OutOfBoundsAccess);
        }
        let v = self.regs[x];
        let i = self.index as usize;
        self.memory.set(i, v / 100);
        self.memory.set(i + 1, (v / 10) % 10);
        self.memory.set(i + 2, v % 10);
        Ok(())
    }

    /// Copy registers 0 through `x` inclusive into memory starting at the
    /// index register. A dump that would write past memory is a fatal
    /// out-of-bounds access and leaves the machine untouched.
    pub fn ld_ix(&mut self, x: usize) -> (r: Result<(), VmError>)
        requires
            old(self).wf(),
            x < 16,
        ensures
            final(self).wf(),
            old(self).index + x >= 4096 ==> (r == Err::<(), VmError>(VmError::OutOfBoundsAccess)
                && CPU::same_state(*old(self), *final(self))),
            old(self).index + x < 4096 ==> (r == Ok::<(), VmError>(())
                && final(self).pc == old(self).pc
                && final(self).regs@ == old(self).regs@
                && final(self).memory@.len() == 4096 && (forall|j: int|
                0 <= j < 4096 ==> final(self).memory@[j] == if old(self).index <= j <= old(self).index
                    + x {
                    old(self).regs@[j - old(self).index]
                } else {
                    old(self).memory@[j]
                })
                && final(self).stack@ == old(self).stack@ && final(self).sp == old(self).sp
                && final(self).index == old(self).index
                && final(self).delay_timer == old(self).delay_timer
                && final(self).sound_timer == old(self).sound_timer
                && final(self).keyboard@ == old(self).keyboard@
                && final(self).display@ == old(self).display@),
    {
        let base = self.index as usize;
        if base + x > 4095 {
            return Err(VmError::OutOfBoundsAccess);
        }
        let mut i: usize = 0;
        while i <= x
            invariant
                self.wf(),
                x < 16,
                i <= x + 1,
                base == old(self).index,
                base + x < 4096,
                self.pc == old(self).pc,
                self.regs@ == old(self).regs@,
                self.stack@ == old(self).stack@,
                self.sp == old(self).sp,
                self.index == old(self).index,
                self.delay_timer == old(self).delay_timer,
                self.sound_timer == old(self).sound_timer,
                self.keyboard@ == old(self).keyboard@,
                self.display@ == old(self).display@,
                forall|j: int|
                    0 <= j < 4096 ==> self.memory@[j] == if base <= j < base + i {
                        old(self).regs@[j - base]
                    } else {
                        old(self).memory@[j]
                    },
            decreases x + 1 - i,
        {
            let v = self.regs[i];
            self.memory.set(base + i, v);
            i = i + 1;
        }
        Ok(())
    }

    /// Fill registers 0 through `x` inclusive from memory starting at the
    /// index register. A load that would read past memory is a fatal
    /// out-of-bounds access and leaves the machine untouched.
    pub fn ld_xi(&mut self, x: usize) -> (r: Result<(), VmError>)
        requires
            old(self).wf(),
            x < 16,
        ensures
            final(self).wf(),
            old(self).index + x >= 4096 ==> (r == Err::<(), VmError>(VmError::OutOfBoundsAccess)
                && CPU::same_state(*old(self), *final(self))),
            old(self).index + x < 4096 ==> (r == Ok::<(), VmError>(())
                && final(self).pc == old(self).pc
                && final(self).regs@.len() == 16 && (forall|j: int|
                0 <= j < 16 ==> final(self).regs@[j] == if j <= x {
                    old(self).memory@[old(self).index + j]
                } else {
                    old(self).regs@[j]
                })
                && CPU::keeps_rest(*old(self), *final(self))),
    {
        let base = self.index as usize;
        if base + x > 4095 {
            return Err(VmError::OutOfBoundsAccess);
        }
        let mut i: usize = 0;
        while i <= x
            invariant
                self.wf(),
                x < 16,
                i <= x + 1,
                base == old(self).index,
                base + x < 4096,
                self.pc == old(self).pc,
                self.memory@ == old(self).memory@,
                self.stack@ == old(self).stack@,
                self.sp == old(self).sp,
                self.index == old(self).index,
                self.delay_timer == old(self).delay_timer,
                self.sound_timer == old(self).sound_timer,
                self.keyboard@ == old(self).keyboard@,
                self.display@ == old(self).display@,
                forall|j: int|
                    0 <= j < 16 ==> self.regs@[j] == if 0 <= j < i {
                        old(self).memory@[base + j]
                    } else {
                        old(self).regs@[j]
                    },
            decreases x + 1 - i,
        {
            let v = self.memory[base + i];
            self.regs.set(i, v);
            i = i + 1;
        }
        Ok(())
    }

    /// Count both timers down by one, stopping at zero. The clock loop
    /// calls this once after every executed instruction.
    pub fn tick_timers(&mut self)
        requires
            old(self).wf(),
        ensures
            final(self).wf(),
            final(self).pc == old(self).pc,
            final(self).regs@ == old(self).regs@,
            final(self).delay_timer == dec8(old(self).delay_timer),
            final(self).sound_timer == dec8(old(self).sound_timer),
            final(self).memory@ == old(self).memory@,
            final(self).stack@ == old(self).stack@,
            final(self).sp == old(self).sp,
            final(self).index == old(self).index,
            final(self).keyboard@ == old(self).keyboard@,
            final(self).display@ == old(self).display@,
    {
        if self.delay_timer > 0 {
            self.delay_timer = self.delay_timer - 1;
        }
        if self.sound_timer > 0 {
            self.sound_timer = self.sound_timer - 1;
        }
    }
}

impl CPU {
    /// Both timers counted down by one, stopping at zero.
    pub open spec fn ticked(pre: CPU, post: CPU) -> bool {
        &&& post.delay_timer == dec8(pre.delay_timer)
        &&& post.sound_timer == dec8(pre.sound_timer)
    }

    /// Memory, call stack, index register, keypad and display unchanged.
    pub open spec fn quiet(pre: CPU, post: CPU) -> bool {
        &&& post.memory@ == pre.memory@
        &&& post.stack@ == pre.stack@
        &&& post.sp == pre.sp
        &&& post.index == pre.index
        &&& post.keyboard@ == pre.keyboard@
        &&& post.display@ == pre.display@
    }

    /// The complete effect of one clock step from state `pre`: fetch the
    /// word at the program counter, decode it, execute its operation, and
    /// count the timers down once - or stop with the fatal error the step
    /// ran into, leaving the state as the failing operation left it.
    pub open spec fn step_post(pre: CPU, post: CPU, r: Result<Flow, VmError>) -> bool {
        if pre.pc + 2 > 4096 {
            r == Err::<Flow, VmError>(VmError::OutOfBoundsAccess) && CPU::same_state(pre, post)
        } else {
            let w = word_at(pre.memory@, pre.pc as int);
            let rs = pre.regs@;
            let pc2 = pre.pc + 2;
            let ok = r == Ok::<Flow, VmError>(Flow::Running);
            match decode_s(w) {
                Instr::Halt => r == Ok::<Flow, VmError>(Flow::Halted) && CPU::fetched(pre, post),
                Instr::Ret => if pre.sp == 0 {
                    r == Err::<Flow, VmError>(VmError::StackUnderflow) && CPU::fetched(pre, post)
                } else {
                    ok && post.pc == pre.stack@[pre.sp - 1] && post.regs@ == rs && post.stack@
                        == pre.stack@ && post.sp == pre.sp - 1 && post.memory@ == pre.memory@
                        && post.index == pre.index && post.keyboard@ == pre.keyboard@
                        && post.display@ == pre.display@ && CPU::ticked(pre, post)
                },
                Instr::Cls => ok && post.pc == pc2 && post.regs@ == rs && post.memory@
                    == pre.memory@ && post.stack@ == pre.stack@ && post.sp == pre.sp && post.index
                    == pre.index && post.keyboard@ == pre.keyboard@ && post.display@.len() == 2048
                    && (forall|p: int| 0 <= p < 2048 ==> !post.display@[p]) && CPU::ticked(
                    pre,
                    post,
                ),
                Instr::Jmp(a) => ok && post.pc == a && post.regs@ == rs && CPU::quiet(pre, post)
                    && CPU::ticked(pre, post),
                Instr::JmpV0(a) => ok && post.pc == rs[0] + a && post.regs@ == rs && CPU::quiet(
                    pre,
                    post,
                ) && CPU::ticked(pre, post),
                Instr::Call(a) => if pre.sp == 16 {
                    r == Err::<Flow, VmError>(VmError::StackOverflow) && CPU::fetched(pre, post)
                } else {
                    ok && post.pc == a && post.regs@ == rs && post.stack@ == pre.stack@.update(
                        pre.sp as int,
                        pc2 as u16,
                    ) && post.sp == pre.sp + 1 && post.memory@ == pre.memory@ && post.index
                        == pre.index && post.keyboard@ == pre.keyboard@ && post.display@
                        == pre.display@ && CPU::ticked(pre, post)
                },
                Instr::SeByte(x, kk) => ok && post.pc == pc2 + (if rs[x as int] == kk {
                    2int
                } else {
                    0int
                }) && post.regs@ == rs && CPU::quiet(pre, post) && CPU::ticked(pre, post),
                Instr::SneByte(x, kk) => ok && post.pc == pc2 + (if rs[x as int] != kk {
                    2int
                } else {
                    0int
                }) && post.regs@ == rs && CPU::quiet(pre, post) && CPU::ticked(pre, post),
                Instr::SeReg(x, y) => ok && post.pc == pc2 + (if rs[x as int] == rs[y as int] {
                    2int
                } else {
                    0int
                }) && post.regs@ == rs && CPU::quiet(pre, post) && CPU::ticked(pre, post),
                Instr::SneReg(x, y) => ok && post.pc == pc2 + (if rs[x as int] != rs[y as int] {
                    2int
                } else {
                    0int
                }) && post.regs@ == rs && CPU::quiet(pre, post) && CPU::ticked(pre, post),
                Instr::LdByte(x, kk) => ok && post.pc == pc2 && post.regs@ == rs.update(
                    x as int,
                    kk,
                ) && CPU::quiet(pre, post) && CPU::ticked(pre, post),
                Instr::AddByte(x, kk) => ok && post.pc == pc2 && post.regs@ == rs.update(
                    x as int,
                    add8(rs[x as int], kk),
                ) && CPU::quiet(pre, post) && CPU::ticked(pre, post),
                Instr::LdReg(x, y) => ok && post.pc == pc2 && post.regs@ == rs.update(
                    x as int,
                    rs[y as int],
                ) && CPU::quiet(pre, post) && CPU::ticked(pre, post),
                Instr::Or(x, y) => ok && post.pc == pc2 && post.regs@ == rs.update(
                    x as int,
                    rs[x as int] | rs[y as int],
                ) && CPU::quiet(pre, post) && CPU::ticked(pre, post),
                Instr::And(x, y) => ok && post.pc == pc2 && post.regs@ == rs.update(
                    x as int,
                    rs[x as int] & rs[y as int],
                ) && CPU::quiet(pre, post) && CPU::ticked(pre, post),
                Instr::Xor(x, y) => ok && post.pc == pc2 && post.regs@ == rs.update(
                    x as int,
                    rs[x as int] ^ rs[y as int],
                ) && CPU::quiet(pre, post) && CPU::ticked(pre, post),
                Instr::Add(x, y) => ok && post.pc == pc2 && post.regs@ == rs.update(
                    x as int,
                    add8(rs[x as int], rs[y as int]),
                ).update(15, carry8(rs[x as int], rs[y as int])) && CPU::quiet(pre, post)
                    && CPU::ticked(pre, post),
                Instr::Sub(x, y) => ok && post.pc == pc2 && post.regs@ == rs.update(
                    x as int,
                    sub8(rs[x as int], rs[y as int]),
                ).update(15, noborrow8(rs[x as int], rs[y as int])) && CPU::quiet(pre, post)
                    && CPU::ticked(pre, post),
                Instr::Shr(x) => ok && post.pc == pc2 && post.regs@ == rs.update(
                    x as int,
                    shr8(rs[x as int]),
                ).update(15, lobit8(rs[x as int])) && CPU::quiet(pre, post) && CPU::ticked(
                    pre,
                    post,
                ),
                Instr::Subn(x, y) => ok && post.pc == pc2 && post.regs@ == rs.update(
                    x as int,
                    sub8(rs[x as int], rs[y as int]),
                ).update(15, borrow8(rs[x as int], rs[y as int])) && CPU::quiet(pre, post)
                    && CPU::ticked(pre, post),
                Instr::Shl(x) => ok && post.pc == pc2 && post.regs@ == rs.update(
                    x as int,
                    shl8(rs[x as int]),
                ).update(15, hibit8(rs[x as int])) && CPU::quiet(pre, post) && CPU::ticked(
                    pre,
                    post,
                ),
                Instr::LdIndex(a) => ok && post.pc == pc2 && post.regs@ == rs && post.index == a
                    && post.memory@ == pre.memory@ && post.stack@ == pre.stack@ && post.sp
                    == pre.sp && post.keyboard@ == pre.keyboard@ && post.display@ == pre.display@
                    && CPU::ticked(pre, post),
                Instr::Rnd(x, kk) => ok && post.pc == pc2 && (exists|b: u8|
                    post.regs@ == rs.update(x as int, b & kk)) && CPU::quiet(pre, post)
                    && CPU::ticked(pre, post),
                Instr::Drw(x, y, n) => if pre.index + n > 4096 {
                    r == Err::<Flow, VmError>(VmError::OutOfBoundsAccess) && CPU::fetched(pre, post)
                } else {
                    ok && post.pc == pc2 && draw_rel(
                        pre.display@,
                        post.display@,
                        pre.memory@.subrange(pre.index as int, pre.index + n),
                        rs[x as int] as int,
                        rs[y as int] as int,
                    ) && post.regs@ == rs.update(
                        15,
                        if draw_collision(
                            pre.display@,
                            pre.memory@.subrange(pre.index as int, pre.index + n),
                            rs[x as int] as int,
                            rs[y as int] as int,
                        ) {
                            1u8
                        } else {
                            0u8
                        },
                    ) && post.memory@ == pre.memory@ && post.stack@ == pre.stack@ && post.sp
                        == pre.sp && post.index == pre.index && post.keyboard@ == pre.keyboard@
                        && CPU::ticked(pre, post)
                },
                Instr::Skp(x) => ok && post.pc == pc2 + (if pre.keyboard@[(rs[x as int] % 16) as int] {
                    2int
                } else {
                    0int
                }) && post.regs@ == rs && CPU::quiet(pre, post) && CPU::ticked(pre, post),
                Instr::Sknp(x) => ok && post.pc == pc2 + (if !pre.keyboard@[(rs[x as int] % 16) as int] {
                    2int
                } else {
                    0int
                }) && post.regs@ == rs && CPU::quiet(pre, post) && CPU::ticked(pre, post),
                Instr::LdRegDelay(x) => ok && post.pc == pc2 && post.regs@ == rs.update(
                    x as int,
                    pre.delay_timer,
                ) && CPU::quiet(pre, post) && CPU::ticked(pre, post),
                Instr::WaitKey(x) => if exists|k: int| 0 <= k < 16 && pre.keyboard@[k] {
                    ok && post.pc == pc2 && (exists|k: int|
                        0 <= k < 16 && pre.keyboard@[k] && (forall|j: int|
                            0 <= j < k ==> !pre.keyboard@[j]) && post.regs@ == rs.update(
                            x as int,
                            k as u8,
                        )) && CPU::quiet(pre, post) && CPU::ticked(pre, post)
                } else {
                    ok && CPU::same_state(pre, post)
                },
                Instr::LdDelay(x) => ok && post.pc == pc2 && post.regs@ == rs && post.delay_timer
                    == dec8(rs[x as int]) && post.sound_timer == dec8(pre.sound_timer)
                    && CPU::quiet(pre, post),
                Instr::LdSound(x) => ok && post.pc == pc2 && post.regs@ == rs && post.sound_timer
                    == dec8(rs[x as int]) && post.delay_timer == dec8(pre.delay_timer)
                    && CPU::quiet(pre, post),
                Instr::AddIndex(x) => ok && post.pc == pc2 && post.regs@ == rs && post.index == (
                pre.index + rs[x as int]) % 0x10000 && post.memory@ == pre.memory@ && post.stack@
                    == pre.stack@ && post.sp == pre.sp && post.keyboard@ == pre.keyboard@
                    && post.display@ == pre.display@ && CPU::ticked(pre, post),
                Instr::LdFont(x) => ok && post.pc == pc2 && post.regs@ == rs && post.index
                    == rs[x as int] && post.memory@ == pre.memory@ && post.stack@ == pre.stack@
                    && post.sp == pre.sp && post.keyboard@ == pre.keyboard@ && post.display@
                    == pre.display@ && CPU::ticked(pre, post),
                Instr::StoreBcd(x) => if pre.index + 2 >= 4096 {
                    r == Err::<Flow, VmError>(VmError::OutOfBoundsAccess) && CPU::fetched(pre, post)
                } else {
                    ok && post.pc == pc2 && post.regs@ == rs && post.memory@
                        == pre.memory@.update(
                        pre.index as int,
                        (rs[x as int] / 100) as u8,
                    ).update(pre.index + 1, ((rs[x as int] / 10) % 10) as u8).update(
                        pre.index + 2,
                        (rs[x as int] % 10) as u8,
                    ) && post.stack@ == pre.stack@ && post.sp == pre.sp && post.index == pre.index
                        && post.keyboard@ == pre.keyboard@ && post.display@ == pre.display@
                        && CPU::ticked(pre, post)
                },
                Instr::StoreRegs(x) => if pre.index + x >= 4096 {
                    r == Err::<Flow, VmError>(VmError::OutOfBoundsAccess) && CPU::fetched(pre, post)
                } else {
                    ok && post.pc == pc2 && post.regs@ == rs && post.memory@.len() == 4096 && (
                    forall|j: int|
                        0 <= j < 4096 ==> post.memory@[j] == if pre.index <= j <= pre.index + x {
                            rs[j - pre.index]
                        } else {
                            pre.memory@[j]
                        }) && post.stack@ == pre.stack@ && post.sp == pre.sp && post.index
                        == pre.index && post.keyboard@ == pre.keyboard@ && post.display@
                        == pre.display@ && CPU::ticked(pre, post)
                },
                Instr::LoadRegs(x) => if pre.index + x >= 4096 {
                    r == Err::<Flow, VmError>(VmError::OutOfBoundsAccess) && CPU::fetched(pre, post)
                } else {
                    ok && post.pc == pc2 && post.regs@.len() == 16 && (forall|j: int|
                        0 <= j < 16 ==> post.regs@[j] == if j <= x {
                            pre.memory@[pre.index + j]
                        } else {
                            rs[j]
                        }) && CPU::quiet(pre, post) && CPU::ticked(pre, post)
                },
                Instr::Unknown(_) => r == Err::<Flow, VmError>(VmError::UnimplementedOpcode)
                    && CPU::fetched(pre, post),
            }
        }
    }

    /// One step of the clock loop: fetch the next instruction word,
    /// decode it, execute it, and count the timers down once. Returns
    /// `Halted` on the all-zero sentinel, `Running` otherwise, or the
    /// fatal error the step ran into. A key wait with no key down leaves
    /// the whole state untouched - the counter is put back so the next
    /// step polls the keypad again, and the timers are not counted down.
    pub fn step(&mut self) -> (r: Result<Flow, VmError>)
        requires
            old(self).wf(),
        ensures
            final(self).wf(),
            CPU::step_post(*old(self), *final(self), r),
    {
        let w = match self.next() {
            Ok(w) => w,
            Err(e) => {
                return Err(e);
            },
        };
        let i = decode(w);
        proof {
            crate::decode::lemma_decode_fields(w);
        }
        match i {
            Instr::Halt => {
                return Ok(Flow::Halted);
            },
            Instr::Ret => {
                match self.ret() {
                    Ok(_) => {},
                    Err(e) => {
                        return Err(e);
                    },
                }
            },
            Instr::Cls => {
                self.cls();
            },
            Instr::Jmp(a) => {
                self.jmp(a);
            },
            Instr::JmpV0(a) => {
                let t: u16 = self.regs[0] as u16 + a;
                self.jmp(t);
            },
            Instr::Call(a) => {
                match self.call(a) {
                    Ok(_) => {},
                    Err(e) => {
                        return Err(e);
                    },
                }
            },
            Instr::SeByte(x, kk) => {
                self.se(x as usize, kk);
            },
            Instr::SneByte(x, kk) => {
                self.sne(x as usize, kk);
            },
            Instr::SeReg(x, y) => {
                self.se_xy(x as usize, y as usize);
            },
            Instr::SneReg(x, y) => {
                self.sne_xy(x as usize, y as usize);
            },
            Instr::LdByte(x, kk) => {
                self.ld_x(x as usize, kk);
            },
            Instr::AddByte(x, kk) => {
                self.add_x(x as usize, kk);
            },
            Instr::LdReg(x, y) => {
                self.ld_xy(x as usize, y as usize);
            },
            Instr::Or(x, y) => {
                self.or_xy(x as usize, y as usize);
            },
            Instr::And(x, y) => {
                self.and_xy(x as usize, y as usize);
            },
            Instr::Xor(x, y) => {
                self.xor_xy(x as usize, y as usize);
            },
            Instr::Add(x, y) => {
                self.add_xy(x, y);
            },
            Instr::Sub(x, y) => {
                self.sub_xy(x, y);
            },
            Instr::Shr(x) => {
                self.shr_x(x as usize);
            },
            Instr::Subn(x, y) => {
                self.subn_xy(x as usize, y as usize);
            },
            Instr::Shl(x) => {
                self.shl_x(x as usize);
            },
            Instr::LdIndex(a) => {
                self.ld_i(a);
            },
            Instr::Rnd(x, kk) => {
                self.rnd(x as usize, kk);
            },
            Instr::Drw(x, y, n) => {
                match self.drw_xyn(x as usize, y as usize, n) {
                    Ok(_) => {},
                    Err(e) => {
                        return Err(e);
                    },
                }
            },
            Instr::Skp(x) => {
                self.skp_x(x as usize);
            },
            Instr::Sknp(x) => {
                self.sknp_x(x as usize);
            },
            Instr::LdRegDelay(x) => {
                self.ld_xdt(x as usize);
            },
            Instr::WaitKey(x) => {
                let found = self.ld_xk(x as usize);
                if !found {
                    self.pc = self.pc - 2;
                    return Ok(Flow::Running);
                }
            },
            Instr::LdDelay(x) => {
                self.ld_dtx(x as usize);
            },
            Instr::LdSound(x) => {
                self.ld_st(x as usize);
            },
            Instr::AddIndex(x) => {
                self.add_ix(x as usize);
            },
            Instr::LdFont(x) => {
                self.ld_fx(x as usize);
            },
            Instr::StoreBcd(x) => {
                match self.ld_bcd(x as usize) {
                    Ok(_) => {},
                    Err(e) => {
                        return Err(e);
                    },
                }
            },
            Instr::StoreRegs(x) => {
                match self.ld_ix(x as usize) {
                    Ok(_) => {},
                    Err(e) => {
                        return Err(e);
                    },
                }
            },
            Instr::LoadRegs(x) => {
                match self.ld_xi(x as usize) {
                    Ok(_) => {},
                    Err(e) => {
                        return Err(e);
                    },
                }
            },
            Instr::Unknown(_) => {
                return Err(VmError::UnimplementedOpcode);
            },
        }
        self.tick_timers();
        Ok(Flow::Running)
    }
}

/// State `post` is what `n` completed clock steps, none of them halting
/// or failing, make of state `pre`.
pub open spec fn reach(pre: CPU, post: CPU, n: nat) -> bool
    decreases n,
{
    if n == 0 {
        CPU::same_state(pre, post)
    } else {
        exists|mid: CPU|
            reach(pre, mid, (n - 1) as nat) && CPU::step_post(mid, post, Ok(Flow::Running))
    }
}

/// One more completed step extends a chain of steps.
proof fn lemma_reach_extend(pre: CPU, mid: CPU, post: CPU, n: nat)
    requires
        reach(pre, mid, n),
        CPU::step_post(mid, post, Ok(Flow::Running)),
    ensures
        reach(pre, post, n + 1),
{
    assert(reach(pre, mid, ((n + 1) - 1) as nat));
}

impl CPU {
    /// Drive the clock loop for at most `max_steps` steps: fetch, decode,
    /// execute, and count timers down, over and over. Returns `Halted`
    /// when the all-zero sentinel is reached, `Running` when the step
    /// budget runs out first, or the fatal error that stopped the run.
    /// The final state is what a chain of single steps makes of the
    /// initial state, with the halting or failing step last.
    pub fn run(&mut self, max_steps: u64) -> (r: Result<Flow, VmError>)
        requires
            old(self).wf(),
        ensures
            final(self).wf(),
            r == Ok::<Flow, VmError>(Flow::Running) ==> reach(
                *old(self),
                *final(self),
                max_steps as nat,
            ),
            r == Ok::<Flow, VmError>(Flow::Halted) ==> (exists|n: nat, mid: CPU|
                n <= max_steps && reach(*old(self), mid, n) && CPU::step_post(
                    mid,
                    *final(self),
                    Ok(Flow::Halted),
                )),
            r matches Err(e) ==> (exists|n: nat, mid: CPU|
                n <= max_steps && reach(*old(self), mid, n) && CPU::step_post(
                    mid,
                    *final(self),
                    Err(e),
                )),
    {
        let mut i: u64 = 0;
        while i < max_steps
            invariant
                self.wf(),
                i <= max_steps,
                reach(*old(self), *self, i as nat),
            decreases max_steps - i,
        {
            let ghost mid = *self;
            let res = self.step();
            match res {
                Ok(Flow::Running) => {
                    proof {
                        lemma_reach_extend(*old(self), mid, *self, i as nat);
                    }
                    i = i + 1;
                },
                Ok(Flow::Halted) => {
                    proof {
                        assert(i as nat <= max_steps && reach(*old(self), mid, i as nat)
                            && CPU::step_post(mid, *self, Ok(Flow::Halted)));
                    }
                    return Ok(Flow::Halted);
                },
                Err(e) => {
                    proof {
                        assert(i as nat <= max_steps && reach(*old(self), mid, i as nat)
                            && CPU::step_post(mid, *self, Err::<Flow, VmError>(e)));
                    }
                    return Err(e);
                },
            }
        }
        Ok(Flow::Running)
    }
}

/// A call followed immediately by a return restores the program counter:
/// the call pushes the address of the instruction after it, and the
/// matching return pops that exact address back.
pub proof fn lemma_call_then_ret(pre: CPU, mid: CPU, post: CPU)
    requires
        pre.wf(),
        pre.pc + 2 <= 4096,
        decode_s(word_at(pre.memory@, pre.pc as int)) matches Instr::Call(_),
        pre.sp < 16,
        CPU::step_post(pre, mid, Ok(Flow::Running)),
        mid.pc + 2 <= 4096,
        decode_s(word_at(mid.memory@, mid.pc as int)) matches Instr::Ret,
        CPU::step_post(mid, post, Ok(Flow::Running)),
    ensures
        post.pc == pre.pc + 2,
{
}

/// Timers count down exactly once per executed instruction and never go
/// below zero, however many instructions run after they reach it. The
/// statement excludes the three operations that deal in the timers or in
/// suspension themselves: the timer loads store a fresh value (which the
/// same step then counts down once), and a key wait executes no
/// instruction while no key is down.
pub proof fn lemma_timers_tick_once(pre: CPU, post: CPU)
    requires
        pre.pc + 2 <= 4096,
        CPU::step_post(pre, post, Ok(Flow::Running)),
        !(decode_s(word_at(pre.memory@, pre.pc as int)) matches Instr::LdDelay(_)),
        !(decode_s(word_at(pre.memory@, pre.pc as int)) matches Instr::LdSound(_)),
        !(decode_s(word_at(pre.memory@, pre.pc as int)) matches Instr::WaitKey(_)),
    ensures
        post.delay_timer == dec8(pre.delay_timer),
        post.sound_timer == dec8(pre.sound_timer),
        pre.delay_timer > 0 ==> post.delay_timer == pre.delay_timer - 1,
        pre.delay_timer == 0 ==> post.delay_timer == 0,
        pre.sound_timer > 0 ==> post.sound_timer == pre.sound_timer - 1,
        pre.sound_timer == 0 ==> post.sound_timer == 0,
{
}

/// A vector of `n` copies of one value.
fn filled<T: Copy>(n: usize, v: T) -> (r: Vec<T>)
    ensures
        r@.len() == n,
        forall|i: int| 0 <= i < n ==> r@[i] == v,
{
    let mut out: Vec<T> = Vec::new();
    while out.len() < n
        invariant
            out@.len() <= n,
            forall|i: int| 0 <= i < out@.len() ==> out@[i] == v,
        decreases n - out@.len(),
    {
        out.push(v);
    }
    out
}

} // verus!
