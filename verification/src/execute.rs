//! The executor: applies one decoded instruction to the machine state.
//!
//! Every instruction's semantics — program-counter advance, arithmetic flag
//! behaviour, XOR draw with collision detection, stack discipline — is
//! stated by `spec_step` and proved of `execute_op`. The fetch/decode/execute
//! cycle (`step`) and the per-tick instruction batch (`tick`) build on it.

use vstd::prelude::*;

use crate::decode::Instruction;
use crate::decode::decode;
use crate::decode::instr_wf;
use crate::decode::lemma_decode_wf;
use crate::decode::spec_decode;
use crate::machine::Chip8;
use crate::machine::MachineV;
use crate::machine::Status;
use crate::machine::blank_screen;
use crate::machine::dec_timer;

verus! {

/// A fatal execution condition. Continuing after any of these would
/// desynchronize the emulated state, so execution aborts and reports it.
#[derive(Clone, Copy, PartialEq, Eq, Structural, Debug)]
pub enum Chip8Error {
    /// The instruction word matches no defined encoding, or the unsupported
    /// machine-code-call family; carries the offending word.
    UnknownOpcode(u16),
    /// A call was executed with all sixteen stack slots in use.
    StackOverflow,
    /// A font-glyph lookup with a register value above 15; carries the value.
    InvalidGlyph(u8),
    /// A key-state test with a register value above 15; carries the value.
    InvalidKey(u8),
}

/// The outcome of executing one instruction: the machine state afterwards
/// and whether a fatal condition was reported. On an error the state is the
/// unchanged pre-state.
#[verifier::ext_equal]
pub ghost struct StepOut {
    pub post: MachineV,
    pub res: Result<(), Chip8Error>,
}

/// The program counter after a plain (non-skipping, non-jumping)
/// instruction.
pub open spec fn pc2(pc: u16) -> u16 {
    ((pc + 2) % 0x10000) as u16
}

/// The program counter after a conditional skip: four ahead when the
/// condition held, two otherwise.
pub open spec fn pc_skip(pc: u16, cond: bool) -> u16 {
    if cond {
        ((pc + 4) % 0x10000) as u16
    } else {
        pc2(pc)
    }
}

/// Reduction of an integer to a byte, modulo 256.
pub open spec fn wrap8(n: int) -> u8 {
    (n % 256) as u8
}

/// The linear-congruential successor of the pseudo-random state.
pub open spec fn next_rng(r: u32) -> u32 {
    ((r * 1664525 + 1013904223) % 0x1_0000_0000) as u32
}

/// The byte drawn from a pseudo-random state: its bits 16..24.
pub open spec fn rand_byte(r: u32) -> u8 {
    ((r / 0x10000) % 256) as u8
}

/// Whether sprite byte `b` has the pixel at column `col` set (column 0 is
/// the leftmost pixel, bit 7).
pub open spec fn byte_bit(b: u8, col: int) -> bool {
    ((b as u32) >> ((7 - col) as u32)) & 1 == 1
}

/// Framebuffer and collision flag while a draw is in progress.
#[verifier::ext_equal]
pub ghost struct DrawState {
    pub screen: Seq<bool>,
    pub hit: bool,
}

/// XOR the first `ncols` pixels of one sprite row into the framebuffer.
/// Row `y` receives columns `(vx + col) % 64`; a set sprite pixel toggles
/// the framebuffer pixel, and turning a set pixel off records a collision.
pub open spec fn draw_bits(st: DrawState, byte: u8, vx: u8, y: int, ncols: int) -> DrawState
    decreases ncols,
{
    if ncols <= 0 {
        st
    } else {
        let prev = draw_bits(st, byte, vx, y, ncols - 1);
        let col = ncols - 1;
        if byte_bit(byte, col) {
            let idx = y * 64 + (vx + col) % 64;
            DrawState {
                screen: prev.screen.update(idx, !prev.screen[idx]),
                hit: prev.hit || prev.screen[idx],
            }
        } else {
            prev
        }
    }
}

/// XOR the first `nrows` rows of a sprite into the framebuffer. Row `row`
/// is the byte at `(i + row) % 4096`, drawn at screen row `(vy + row) % 32`.
pub open spec fn draw_rows(st: DrawState, mem: Seq<u8>, i: u16, vx: u8, vy: u8, nrows: int) -> DrawState
    decreases nrows,
{
    if nrows <= 0 {
        st
    } else {
        let prev = draw_rows(st, mem, i, vx, vy, nrows - 1);
        let row = nrows - 1;
        draw_bits(prev, mem[(i + row) % 4096], vx, (vy + row) % 32, 8)
    }
}

/// The full effect of `Draw(x, y, n)` on the framebuffer, starting with a
/// clear collision flag.
pub open spec fn spec_draw(pre: MachineV, x: u8, y: u8, n: u8) -> DrawState {
    draw_rows(
        DrawState { screen: pre.screen, hit: false },
        pre.mem,
        pre.i,
        pre.v[x as int],
        pre.v[y as int],
        n as int,
    )
}

/// Memory after writing registers `V0..V(cnt-1)` to addresses `i..`,
/// wrapping into the 4096-byte memory.
pub open spec fn dump_regs(mem: Seq<u8>, v: Seq<u8>, i: u16, cnt: int) -> Seq<u8>
    decreases cnt,
{
    if cnt <= 0 {
        mem
    } else {
        dump_regs(mem, v, i, cnt - 1).update((i + cnt - 1) % 4096, v[cnt - 1])
    }
}

/// Registers after loading `V0..V(cnt-1)` from addresses `i..`, wrapping
/// into the 4096-byte memory.
pub open spec fn load_regs(v: Seq<u8>, mem: Seq<u8>, i: u16, cnt: int) -> Seq<u8>
    decreases cnt,
{
    if cnt <= 0 {
        v
    } else {
        load_regs(v, mem, i, cnt - 1).update(cnt - 1, mem[(i + cnt - 1) % 4096])
    }
}

/// A successful step to state `m`.
pub open spec fn ok_out(m: MachineV) -> StepOut {
    StepOut { post: m, res: Ok(()) }
}

/// The semantics of one decoded instruction: the machine state it produces
/// and the fatal condition it reports, if any. This is the reference for
/// `execute_op`; each arm follows the instruction table, including the two
/// quirk choices fixed by this design (VF = 1 means no borrow; shifts read
/// and write Vx).
pub open spec fn spec_step(pre: MachineV, instr: Instruction) -> StepOut {
    match instr {
        Instruction::Cls => ok_out(
            MachineV { screen: blank_screen(), pc: pc2(pre.pc), ..pre },
        ),
        Instruction::Ret => if pre.stack.len() == 0 {
            ok_out(MachineV { status: Status::Halted, ..pre })
        } else {
            ok_out(MachineV { pc: pre.stack.last(), stack: pre.stack.drop_last(), ..pre })
        },
        Instruction::Jump(nnn) => ok_out(MachineV { pc: nnn, ..pre }),
        Instruction::Call(nnn) => if pre.stack.len() >= 16 {
            StepOut { post: pre, res: Err(Chip8Error::StackOverflow) }
        } else {
            ok_out(MachineV { stack: pre.stack.push(pc2(pre.pc)), pc: nnn, ..pre })
        },
        Instruction::SkipEqImm(x, kk) => ok_out(
            MachineV { pc: pc_skip(pre.pc, pre.v[x as int] == kk), ..pre },
        ),
        Instruction::SkipNeImm(x, kk) => ok_out(
            MachineV { pc: pc_skip(pre.pc, pre.v[x as int] != kk), ..pre },
        ),
        Instruction::SkipEqReg(x, y) => ok_out(
            MachineV { pc: pc_skip(pre.pc, pre.v[x as int] == pre.v[y as int]), ..pre },
        ),
        Instruction::SetImm(x, kk) => ok_out(
            MachineV { v: pre.v.update(x as int, kk), pc: pc2(pre.pc), ..pre },
        ),
        Instruction::AddImm(x, kk) => ok_out(
            MachineV {
                v: pre.v.update(x as int, wrap8(pre.v[x as int] + kk)),
                pc: pc2(pre.pc),
                ..pre
            },
        ),
        Instruction::Mov(x, y) => ok_out(
            MachineV { v: pre.v.update(x as int, pre.v[y as int]), pc: pc2(pre.pc), ..pre },
        ),
        Instruction::Or(x, y) => ok_out(
            MachineV {
                v: pre.v.update(x as int, pre.v[x as int] | pre.v[y as int]),
                pc: pc2(pre.pc),
                ..pre
            },
        ),
        Instruction::And(x, y) => ok_out(
            MachineV {
                v: pre.v.update(x as int, pre.v[x as int] & pre.v[y as int]),
                pc: pc2(pre.pc),
                ..pre
            },
        ),
        Instruction::Xor(x, y) => ok_out(
            MachineV {
                v: pre.v.update(x as int, pre.v[x as int] ^ pre.v[y as int]),
                pc: pc2(pre.pc),
                ..pre
            },
        ),
        Instruction::Add(x, y) => ok_out(
            MachineV {
                v: pre.v.update(x as int, wrap8(pre.v[x as int] + pre.v[y as int])).update(
                    15,
                    if pre.v[x as int] + pre.v[y as int] > 255 {
                        1u8
                    } else {
                        0u8
                    },
                ),
                pc: pc2(pre.pc),
                ..pre
            },
        ),
        Instruction::Sub(x, y) => ok_out(
            MachineV {
                v: pre.v.update(x as int, wrap8(pre.v[x as int] - pre.v[y as int])).update(
                    15,
                    if pre.v[x as int] >= pre.v[y as int] {
                        1u8
                    } else {
                        0u8
                    },
                ),
                pc: pc2(pre.pc),
                ..pre
            },
        ),
        Instruction::Shr(x) => ok_out(
            MachineV {
                v: pre.v.update(x as int, (pre.v[x as int] / 2) as u8).update(
                    15,
                    (pre.v[x as int] % 2) as u8,
                ),
                pc: pc2(pre.pc),
                ..pre
            },
        ),
        Instruction::SubN(x, y) => ok_out(
            MachineV {
                v: pre.v.update(x as int, wrap8(pre.v[y as int] - pre.v[x as int])).update(
                    15,
                    if pre.v[y as int] >= pre.v[x as int] {
                        1u8
                    } else {
                        0u8
                    },
                ),
                pc: pc2(pre.pc),
                ..pre
            },
        ),
        Instruction::Shl(x) => ok_out(
            MachineV {
                v: pre.v.update(x as int, wrap8(pre.v[x as int] * 2)).update(
                    15,
                    (pre.v[x as int] / 128) as u8,
                ),
                pc: pc2(pre.pc),
                ..pre
            },
        ),
        Instruction::SkipNeReg(x, y) => ok_out(
            MachineV { pc: pc_skip(pre.pc, pre.v[x as int] != pre.v[y as int]), ..pre },
        ),
        Instruction::SetI(nnn) => ok_out(MachineV { i: nnn, pc: pc2(pre.pc), ..pre }),
        Instruction::JumpV0(nnn) => ok_out(
            MachineV { pc: ((nnn + pre.v[0]) % 0x10000) as u16, ..pre },
        ),
        Instruction::Rand(x, kk) => ok_out(
            MachineV {
                rng: next_rng(pre.rng),
                v: pre.v.update(x as int, rand_byte(next_rng(pre.rng)) & kk),
                pc: pc2(pre.pc),
                ..pre
            },
        ),
        Instruction::Draw(x, y, n) => ok_out(
            MachineV {
                screen: spec_draw(pre, x, y, n).screen,
                v: pre.v.update(15, if spec_draw(pre, x, y, n).hit {
                    1u8
                } else {
                    0u8
                }),
                pc: pc2(pre.pc),
                ..pre
            },
        ),
        Instruction::SkipKey(x) => if pre.v[x as int] >= 16 {
            StepOut { post: pre, res: Err(Chip8Error::InvalidKey(pre.v[x as int])) }
        } else {
            ok_out(MachineV { pc: pc_skip(pre.pc, pre.keys[pre.v[x as int] as int]), ..pre })
        },
        Instruction::SkipNoKey(x) => if pre.v[x as int] >= 16 {
            StepOut { post: pre, res: Err(Chip8Error::InvalidKey(pre.v[x as int])) }
        } else {
            ok_out(MachineV { pc: pc_skip(pre.pc, !pre.keys[pre.v[x as int] as int]), ..pre })
        },
        Instruction::GetDelay(x) => ok_out(
            MachineV { v: pre.v.update(x as int, pre.delay), pc: pc2(pre.pc), ..pre },
        ),
        Instruction::WaitKey(x) => ok_out(
            MachineV { status: Status::WaitingForKey(x), pc: pc2(pre.pc), ..pre },
        ),
        Instruction::SetDelay(x) => ok_out(
            MachineV { delay: pre.v[x as int], pc: pc2(pre.pc), ..pre },
        ),
        Instruction::SetSound(x) => ok_out(
            MachineV { sound: pre.v[x as int], pc: pc2(pre.pc), ..pre },
        ),
        Instruction::AddI(x) => ok_out(
            MachineV { i: ((pre.i + pre.v[x as int]) % 0x10000) as u16, pc: pc2(pre.pc), ..pre },
        ),
        Instruction::SetISprite(x) => if pre.v[x as int] >= 16 {
            StepOut { post: pre, res: Err(Chip8Error::InvalidGlyph(pre.v[x as int])) }
        } else {
            ok_out(MachineV { i: (5 * pre.v[x as int]) as u16, pc: pc2(pre.pc), ..pre })
        },
        Instruction::SetBcd(x) => ok_out(
            MachineV {
                mem: pre.mem.update(pre.i as int % 4096, (pre.v[x as int] / 100) as u8).update(
                    (pre.i + 1) % 4096,
                    ((pre.v[x as int] / 10) % 10) as u8,
                ).update((pre.i + 2) % 4096, (pre.v[x as int] % 10) as u8),
                pc: pc2(pre.pc),
                ..pre
            },
        ),
        Instruction::DumpReg(x) => ok_out(
            MachineV {
                mem: dump_regs(pre.mem, pre.v, pre.i, x + 1),
                pc: pc2(pre.pc),
                ..pre
            },
        ),
        Instruction::LoadReg(x) => ok_out(
            MachineV {
                v: load_regs(pre.v, pre.mem, pre.i, x + 1),
                pc: pc2(pre.pc),
                ..pre
            },
        ),
    }
}

/// The semantics of one raw instruction word: an undefined encoding reports
/// `UnknownOpcode` and leaves the state unchanged; a defined one steps by
/// `spec_step`.
pub open spec fn spec_exec(pre: MachineV, w: u16) -> StepOut {
    match spec_decode(w) {
        Option::None => StepOut { post: pre, res: Err(Chip8Error::UnknownOpcode(w)) },
        Option::Some(instr) => spec_step(pre, instr),
    }
}

/// The instruction word at the program counter: two big-endian bytes, with
/// addresses wrapping into the 4096-byte memory.
pub open spec fn fetch_word(pre: MachineV) -> u16 {
    (pre.mem[(pre.pc as int) % 4096] * 256 + pre.mem[(pre.pc + 1) % 4096]) as u16
}

/// One fetch/decode/execute cycle: a running machine fetches the word at
/// the program counter and steps by `spec_exec`; a waiting or halted
/// machine is left unchanged. Opaque so that reasoning about runs of
/// cycles does not expand the whole instruction semantics.
#[verifier::opaque]
pub open spec fn spec_cycle(pre: MachineV) -> StepOut {
    match pre.status {
        Status::Running => spec_exec(pre, fetch_word(pre)),
        _ => ok_out(pre),
    }
}

/// `n` fetch/decode/execute cycles in sequence, stopping at the first
/// reported fatal condition.
pub open spec fn spec_run(pre: MachineV, n: nat) -> StepOut
    decreases n,
{
    if n == 0 {
        ok_out(pre)
    } else {
        let prev = spec_run(pre, (n - 1) as nat);
        if prev.res matches Err(_) {
            prev
        } else {
            spec_cycle(prev.post)
        }
    }
}

/// One whole scheduler tick: `n` instruction cycles, then both timers
/// decremented by one, saturating at zero. A fatal condition stops the tick
/// before the timers.
pub open spec fn spec_tick(pre: MachineV, n: nat) -> StepOut {
    let r = spec_run(pre, n);
    if r.res matches Err(_) {
        r
    } else {
        ok_out(
            MachineV { delay: dec_timer(r.post.delay), sound: dec_timer(r.post.sound), ..r.post },
        )
    }
}

/// Once a run of cycles has reported a fatal condition, running further
/// cycles changes nothing.
pub proof fn lemma_run_err_stable(pre: MachineV, k: nat, n: nat)
    requires
        k <= n,
        spec_run(pre, k).res matches Err(_),
    ensures
        spec_run(pre, n) == spec_run(pre, k),
    decreases n,
{
    if n > k {
        lemma_run_err_stable(pre, k, (n - 1) as nat);
    }
}

impl Chip8 {
    /// Advance the program counter past the current instruction.
    fn advance_pc(&mut self)
        ensures
            final(self)@ == (MachineV { pc: pc2(old(self)@.pc), ..old(self)@ }),
    {
        self.pc = ((self.pc as u32 + 2) % 0x10000) as u16;
    }

    /// Advance the program counter by four (skip) or two, by the condition.
    fn skip_pc(&mut self, cond: bool)
        ensures
            final(self)@ == (MachineV { pc: pc_skip(old(self)@.pc, cond), ..old(self)@ }),
    {
        if cond {
            self.pc = ((self.pc as u32 + 4) % 0x10000) as u16;
        } else {
            self.pc = ((self.pc as u32 + 2) % 0x10000) as u16;
        }
    }

    /// Execute one decoded instruction word against the machine state.
    ///
    /// Returns `Ok` and steps the state exactly as `spec_exec` says; on a
    /// fatal condition (undefined encoding, stack overflow, out-of-range
    /// glyph or key index) returns the reported error with the state
    /// unchanged.
    pub fn execute_op(&mut self, op: u16) -> (r: Result<(), Chip8Error>)
        requires
            old(self).wf(),
        ensures
            final(self).wf(),
            final(self)@ == spec_exec(old(self)@, op).post,
            r == spec_exec(old(self)@, op).res,
    {
        let ghost pre = self@;
        let instr = match decode(op) {
            Option::None => {
                return Err(Chip8Error::UnknownOpcode(op));
            },
            Option::Some(instr) => instr,
        };
        proof {
            lemma_decode_wf(op);
            assert(instr_wf(instr));
        }
        match instr {
            Instruction::Cls => {
                self.clear_screen();
                self.advance_pc();
                Ok(())
            },
            Instruction::Ret => {
                match self.stack.pop() {
                    Option::None => {
                        self.status = Status::Halted;
                    },
                    Option::Some(addr) => {
                        self.pc = addr;
                    },
                }
                Ok(())
            },
            Instruction::Jump(nnn) => {
                self.pc = nnn;
                Ok(())
            },
            Instruction::Call(nnn) => {
                if self.stack.len() >= 16 {
                    return Err(Chip8Error::StackOverflow);
                }
                let ret_addr = ((self.pc as u32 + 2) % 0x10000) as u16;
                self.stack.push(ret_addr);
                self.pc = nnn;
                Ok(())
            },
            Instruction::SkipEqImm(x, kk) => {
                let cond = self.v[x as usize] == kk;
                self.skip_pc(cond);
                Ok(())
            },
            Instruction::SkipNeImm(x, kk) => {
                let cond = self.v[x as usize] != kk;
                self.skip_pc(cond);
                Ok(())
            },
            Instruction::SkipEqReg(x, y) => {
                let cond = self.v[x as usize] == self.v[y as usize];
                self.skip_pc(cond);
                Ok(())
            },
            Instruction::SetImm(x, kk) => {
                self.v[x as usize] = kk;
                self.advance_pc();
                Ok(())
            },
            Instruction::AddImm(x, kk) => {
                let sum = ((self.v[x as usize] as u16 + kk as u16) % 256) as u8;
                self.v[x as usize] = sum;
                self.advance_pc();
                Ok(())
            },
            Instruction::Mov(x, y) => {
                self.v[x as usize] = self.v[y as usize];
                self.advance_pc();
                Ok(())
            },
            Instruction::Or(x, y) => {
                self.v[x as usize] = self.v[x as usize] | self.v[y as usize];
                self.advance_pc();
                Ok(())
            },
            Instruction::And(x, y) => {
                self.v[x as usize] = self.v[x as usize] & self.v[y as usize];
                self.advance_pc();
                Ok(())
            },
            Instruction::Xor(x, y) => {
                self.v[x as usize] = self.v[x as usize] ^ self.v[y as usize];
                self.advance_pc();
                Ok(())
            },
            Instruction::Add(x, y) => {
                let sum = self.v[x as usize] as u16 + self.v[y as usize] as u16;
                self.v[x as usize] = (sum % 256) as u8;
                self.v[15] = if sum > 255 {
                    1
                } else {
                    0
                };
                self.advance_pc();
                Ok(())
            },
            Instruction::Sub(x, y) => {
                let vx = self.v[x as usize];
                let vy = self.v[y as usize];
                let diff = ((vx as u16 + 256 - vy as u16) % 256) as u8;
                proof {
                    assert((vx + 256 - vy) % 256 == (vx - vy) % 256) by (nonlinear_arith);
                }
                self.v[x as usize] = diff;
                self.v[15] = if vx >= vy {
                    1
                } else {
                    0
                };
                self.advance_pc();
                Ok(())
            },
            Instruction::Shr(x) => {
                let vx = self.v[x as usize];
                self.v[x as usize] = vx / 2;
                self.v[15] = vx % 2;
                self.advance_pc();
                Ok(())
            },
            Instruction::SubN(x, y) => {
                let vx = self.v[x as usize];
                let vy = self.v[y as usize];
                let diff = ((vy as u16 + 256 - vx as u16) % 256) as u8;
                proof {
                    assert((vy + 256 - vx) % 256 == (vy - vx) % 256) by (nonlinear_arith);
                }
                self.v[x as usize] = diff;
                self.v[15] = if vy >= vx {
                    1
                } else {
                    0
                };
                self.advance_pc();
                Ok(())
            },
            Instruction::Shl(x) => {
                let vx = self.v[x as usize];
                self.v[x as usize] = ((vx as u16 * 2) % 256) as u8;
                self.v[15] = vx / 128;
                self.advance_pc();
                Ok(())
            },
            Instruction::SkipNeReg(x, y) => {
                let cond = self.v[x as usize] != self.v[y as usize];
                self.skip_pc(cond);
                Ok(())
            },
            Instruction::SetI(nnn) => {
                self.i = nnn;
                self.advance_pc();
                Ok(())
            },
            Instruction::JumpV0(nnn) => {
                self.pc = ((nnn as u32 + self.v[0] as u32) % 0x10000) as u16;
                Ok(())
            },
            Instruction::Rand(x, kk) => {
                let r2 = ((self.rng as u64 * 1664525 + 1013904223) % 0x1_0000_0000) as u32;
                self.rng = r2;
                self.v[x as usize] = (((r2 / 0x10000) % 256) as u8) & kk;
                self.advance_pc();
                Ok(())
            },
            Instruction::Draw(x, y, n) => {
                self.draw_sprite(x, y, n);
                Ok(())
            },
            Instruction::SkipKey(x) => {
                let k = self.v[x as usize];
                if k >= 16 {
                    return Err(Chip8Error::InvalidKey(k));
                }
                let cond = self.keys_down[k as usize];
                self.skip_pc(cond);
                Ok(())
            },
            Instruction::SkipNoKey(x) => {
                let k = self.v[x as usize];
                if k >= 16 {
                    return Err(Chip8Error::InvalidKey(k));
                }
                let cond = !self.keys_down[k as usize];
                self.skip_pc(cond);
                Ok(())
            },
            Instruction::GetDelay(x) => {
                self.v[x as usize] = self.delay_timer;
                self.advance_pc();
                Ok(())
            },
            Instruction::WaitKey(x) => {
                self.status = Status::WaitingForKey(x);
                self.advance_pc();
                Ok(())
            },
            Instruction::SetDelay(x) => {
                self.delay_timer = self.v[x as usize];
                self.advance_pc();
                Ok(())
            },
            Instruction::SetSound(x) => {
                self.sound_timer = self.v[x as usize];
                self.advance_pc();
                Ok(())
            },
            Instruction::AddI(x) => {
                self.i = ((self.i as u32 + self.v[x as usize] as u32) % 0x10000) as u16;
                self.advance_pc();
                Ok(())
            },
            Instruction::SetISprite(x) => {
                let g = self.v[x as usize];
                if g >= 16 {
                    return Err(Chip8Error::InvalidGlyph(g));
                }
                self.i = 5 * g as u16;
                self.advance_pc();
                Ok(())
            },
            Instruction::SetBcd(x) => {
                let vx = self.v[x as usize];
                let base = self.i as usize;
                self.memory[base % 4096] = vx / 100;
                self.memory[(base + 1) % 4096] = (vx / 10) % 10;
                self.memory[(base + 2) % 4096] = vx % 10;
                self.advance_pc();
                Ok(())
            },
            Instruction::DumpReg(x) => {
                self.dump_registers(x);
                self.advance_pc();
                Ok(())
            },
            Instruction::LoadReg(x) => {
                self.load_registers(x);
                self.advance_pc();
                Ok(())
            },
        }
    }

    /// One fetch/decode/execute cycle. A waiting or halted machine is left
    /// unchanged; a running one fetches the big-endian word at the program
    /// counter and executes it.
    pub fn step(&mut self) -> (r: Result<(), Chip8Error>)
        requires
            old(self).wf(),
        ensures
            final(self).wf(),
            final(self)@ == spec_cycle(old(self)@).post,
            r == spec_cycle(old(self)@).res,
    {
        proof {
            reveal(spec_cycle);
        }
        match self.status {
            Status::Running => {
                let hi = self.memory[self.pc as usize % 4096];
                let lo = self.memory[(self.pc as usize + 1) % 4096];
                let w = ((hi as u32) * 256 + lo as u32) as u16;
                self.execute_op(w)
            },
            _ => Ok(()),
        }
    }

    /// One whole scheduler tick: execute `cycles` instruction cycles (at
    /// least one), then decrement both timers, saturating at zero. A fatal
    /// condition is returned at once, with the timers untouched.
    #[verifier::rlimit(100)]
    pub fn tick(&mut self, cycles: usize) -> (r: Result<(), Chip8Error>)
        requires
            old(self).wf(),
            cycles >= 1,
        ensures
            final(self).wf(),
            final(self)@ == spec_tick(old(self)@, cycles as nat).post,
            r == spec_tick(old(self)@, cycles as nat).res,
    {
        let ghost pre = self@;
        let mut c: usize = 0;
        while c < cycles
            invariant
                c <= cycles,
                self.wf(),
                pre == old(self)@,
                spec_run(pre, c as nat).post == self@,
                !(spec_run(pre, c as nat).res matches Err(_)),
            decreases cycles - c,
        {
            let ghost before = self@;
            match self.step() {
                Result::Err(e) => {
                    proof {
                        assert(spec_run(pre, (c + 1) as nat) == spec_cycle(before));
                        lemma_run_err_stable(pre, (c + 1) as nat, cycles as nat);
                    }
                    return Err(e);
                },
                Result::Ok(_) => {
                    proof {
                        assert(spec_run(pre, (c + 1) as nat) == spec_cycle(before));
                    }
                },
            }
            c = c + 1;
        }
        self.tick_timers();
        Ok(())
    }

    /// Clear every pixel of the framebuffer.
    fn clear_screen(&mut self)
        requires
            old(self).wf(),
        ensures
            final(self)@ == (MachineV { screen: blank_screen(), ..old(self)@ }),
    {
        let ghost pre = self@;
        let mut j: usize = 0;
        while j < 2048
            invariant
                j <= 2048,
                self@ == (MachineV { screen: self@.screen, ..pre }),
                self@.screen.len() == 2048,
                forall|a: int| 0 <= a < j ==> self@.screen[a] == false,
                forall|a: int| j <= a < 2048 ==> self@.screen[a] == pre.screen[a],
            decreases 2048 - j,
        {
            self.screen[j] = false;
            j = j + 1;
        }
        proof {
            assert(self@.screen =~= blank_screen());
        }
    }

    /// XOR-draw the `n`-row sprite at `memory[I..]` at origin (Vx, Vy), with
    /// per-pixel wraparound, setting VF to 1 exactly when some XOR write
    /// turned a set pixel off.
    fn draw_sprite(&mut self, x: u8, y: u8, n: u8)
        requires
            old(self).wf(),
            x < 16,
            y < 16,
            n < 16,
        ensures
            final(self).wf(),
            final(self)@ == spec_step(old(self)@, Instruction::Draw(x, y, n)).post,
    {
        let ghost pre = self@;
        let vx = self.v[x as usize];
        let vy = self.v[y as usize];
        let mut hit = false;
        let mut row: usize = 0;
        while row < n as usize
            invariant
                row <= n as usize,
                pre.wf(),
                self@ == (MachineV { screen: self@.screen, ..pre }),
                self@.screen.len() == 2048,
                vx == pre.v[x as int],
                vy == pre.v[y as int],
                draw_rows(DrawState { screen: pre.screen, hit: false }, pre.mem, pre.i, vx, vy, row as int)
                    == (DrawState { screen: self@.screen, hit: hit }),
            decreases n as int - row,
        {
            let byte = self.memory[(self.i as usize + row) % 4096];
            let yy = (vy as usize + row) % 32;
            let ghost row_start = DrawState { screen: self@.screen, hit: hit };
            let mut col: usize = 0;
            while col < 8
                invariant
                    col <= 8,
                    pre.wf(),
                    self@ == (MachineV { screen: self@.screen, ..pre }),
                    self@.screen.len() == 2048,
                    yy < 32,
                    byte == pre.mem[(pre.i + row) % 4096],
                    yy as int == (vy + row) % 32,
                    draw_bits(row_start, byte, vx, yy as int, col as int)
                        == (DrawState { screen: self@.screen, hit: hit }),
                decreases 8 - col,
            {
                if ((byte as u32) >> ((7 - col) as u32)) & 1 == 1 {
                    let xx = (vx as usize + col) % 64;
                    let idx = yy * 64 + xx;
                    let cur = self.screen[idx];
                    if cur {
                        hit = true;
                    }
                    self.screen[idx] = !cur;
                }
                col = col + 1;
            }
            row = row + 1;
        }
        self.v[15] = if hit {
            1
        } else {
            0
        };
        self.pc = ((self.pc as u32 + 2) % 0x10000) as u16;
    }

    /// Write registers `V0..Vx` inclusive to `memory[I..]`, wrapping into
    /// the 4096-byte memory.
    fn dump_registers(&mut self, x: u8)
        requires
            old(self).wf(),
            x < 16,
        ensures
            final(self).wf(),
            final(self)@ == (MachineV {
                mem: dump_regs(old(self)@.mem, old(self)@.v, old(self)@.i, x + 1),
                ..old(self)@
            }),
    {
        let ghost pre = self@;
        let count = x as usize + 1;
        let mut k: usize = 0;
        while k < count
            invariant
                k <= count,
                count <= 16,
                pre.wf(),
                self@ == (MachineV { mem: self@.mem, ..pre }),
                self@.mem.len() == 4096,
                dump_regs(pre.mem, pre.v, pre.i, k as int) == self@.mem,
            decreases count - k,
        {
            let val = self.v[k];
            self.memory[(self.i as usize + k) % 4096] = val;
            k = k + 1;
        }
    }

    /// Load registers `V0..Vx` inclusive from `memory[I..]`, wrapping into
    /// the 4096-byte memory.
    fn load_registers(&mut self, x: u8)
        requires
            old(self).wf(),
            x < 16,
        ensures
            final(self).wf(),
            final(self)@ == (MachineV {
                v: load_regs(old(self)@.v, old(self)@.mem, old(self)@.i, x + 1),
                ..old(self)@
            }),
    {
        let ghost pre = self@;
        let count = x as usize + 1;
        let mut k: usize = 0;
        while k < count
            invariant
                k <= count,
                count <= 16,
                pre.wf(),
                self@ == (MachineV { v: self@.v, ..pre }),
                self@.v.len() == 16,
                load_regs(pre.v, pre.mem, pre.i, k as int) == self@.v,
            decreases count - k,
        {
            let val = self.memory[(self.i as usize + k) % 4096];
            self.v[k] = val;
            k = k + 1;
        }
    }
}

} // verus!
