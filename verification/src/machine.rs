//! The CHIP-8 machine state: memory, registers, call stack, timers,
//! framebuffer and key states, together with its well-formedness invariant
//! and a ghost-level view used by every contract.

use vstd::prelude::*;

verus! {

/// Execution status of the machine.
///
/// `Running` is the normal fetch/execute state. `WaitingForKey(x)` suspends
/// instruction execution until a key press is observed, which writes the key
/// index into register `x`. `Halted` is the controlled-termination state
/// entered by a return with an empty call stack.
#[derive(Clone, Copy, PartialEq, Eq, Structural, Debug)]
pub enum Status {
    Running,
    WaitingForKey(u8),
    Halted,
}

/// Ghost view of the whole machine state, used by all contracts.
#[verifier::ext_equal]
pub ghost struct MachineV {
    pub mem: Seq<u8>,
    pub v: Seq<u8>,
    pub i: u16,
    pub pc: u16,
    pub stack: Seq<u16>,
    pub delay: u8,
    pub sound: u8,
    pub screen: Seq<bool>,
    pub keys: Seq<bool>,
    pub status: Status,
    pub rng: u32,
}

/// The CHIP-8 machine state.
///
/// `memory` is 4096 bytes; the built-in font occupies bytes 0x000..0x050 and
/// program bytes load at 0x200. `screen` is a flat 64x32 grid, row-major:
/// pixel (x, y) lives at index `y * 64 + x`.
pub struct Chip8 {
    pub memory: Vec<u8>,
    pub v: Vec<u8>,
    pub i: u16,
    pub pc: u16,
    pub stack: Vec<u16>,
    pub delay_timer: u8,
    pub sound_timer: u8,
    pub screen: Vec<bool>,
    pub keys_down: Vec<bool>,
    pub status: Status,
    pub rng: u32,
}

impl MachineV {
    /// Well-formedness of the machine state: every component has its fixed
    /// size, the stack respects its capacity, and a wait state names a valid
    /// register.
    pub open spec fn wf(self) -> bool {
        &&& self.mem.len() == 4096
        &&& self.v.len() == 16
        &&& self.stack.len() <= 16
        &&& self.screen.len() == 2048
        &&& self.keys.len() == 16
        &&& (self.status matches Status::WaitingForKey(x) ==> x < 16)
    }
}

impl View for Chip8 {
    type V = MachineV;

    open spec fn view(&self) -> MachineV {
        MachineV {
            mem: self.memory@,
            v: self.v@,
            i: self.i,
            pc: self.pc,
            stack: self.stack@,
            delay: self.delay_timer,
            sound: self.sound_timer,
            screen: self.screen@,
            keys: self.keys_down@,
            status: self.status,
            rng: self.rng,
        }
    }
}

impl Chip8 {
    /// Well-formedness of the executable state (see `MachineV::wf`).
    pub open spec fn wf(&self) -> bool {
        self@.wf()
    }
}

/// The five rows of the built-in font glyph for hexadecimal digit `g`.
pub open spec fn glyph_rows(g: int) -> (u8, u8, u8, u8, u8) {
    if g == 0 {
        (0xF0, 0x90, 0x90, 0x90, 0xF0)
    } else if g == 1 {
        (0x20, 0x60, 0x20, 0x20, 0x70)
    } else if g == 2 {
        (0xF0, 0x10, 0xF0, 0x80, 0xF0)
    } else if g == 3 {
        (0xF0, 0x10, 0xF0, 0x10, 0xF0)
    } else if g == 4 {
        (0x90, 0x90, 0xF0, 0x10, 0x10)
    } else if g == 5 {
        (0xF0, 0x80, 0xF0, 0x10, 0xF0)
    } else if g == 6 {
        (0xF0, 0x80, 0xF0, 0x90, 0xF0)
    } else if g == 7 {
        (0xF0, 0x10, 0x20, 0x40, 0x40)
    } else if g == 8 {
        (0xF0, 0x90, 0xF0, 0x90, 0xF0)
    } else if g == 9 {
        (0xF0, 0x90, 0xF0, 0x10, 0xF0)
    } else if g == 10 {
        (0xF0, 0x90, 0xF0, 0x90, 0x90)
    } else if g == 11 {
        (0xE0, 0x90, 0xE0, 0x90, 0xE0)
    } else if g == 12 {
        (0xF0, 0x80, 0x80, 0x80, 0xF0)
    } else if g == 13 {
        (0xE0, 0x90, 0x90, 0x90, 0xE0)
    } else if g == 14 {
        (0xF0, 0x80, 0xF0, 0x80, 0xF0)
    } else {
        (0xF0, 0x80, 0xF0, 0x80, 0x80)
    }
}

/// The byte at address `a` of the font region (addresses 0..80): row `a % 5`
/// of glyph `a / 5`.
pub open spec fn font_at(a: int) -> u8 {
    let rows = glyph_rows(a / 5);
    let r = a % 5;
    if r == 0 {
        rows.0
    } else if r == 1 {
        rows.1
    } else if r == 2 {
        rows.2
    } else if r == 3 {
        rows.3
    } else {
        rows.4
    }
}

/// Initial memory for a given ROM: the font in bytes 0..80, the ROM verbatim
/// from 0x200, zero elsewhere.
pub open spec fn spec_init_mem(rom: Seq<u8>) -> Seq<u8> {
    Seq::new(4096, |a: int| if a < 80 {
        font_at(a)
    } else if 0x200 <= a && a < 0x200 + rom.len() {
        rom[a - 0x200]
    } else {
        0u8
    })
}

/// An all-unset framebuffer.
pub open spec fn blank_screen() -> Seq<bool> {
    Seq::new(2048, |j: int| false)
}

/// One scheduler-tick decrement of a timer: down by one, saturating at zero.
pub open spec fn dec_timer(t: u8) -> u8 {
    if t == 0 {
        0
    } else {
        (t - 1) as u8
    }
}

/// The key-press transition: the key's flag is set; if the machine was
/// waiting for a key and the flag was clear before (a false-to-true
/// transition), the key index is written to the target register and the
/// machine resumes.
pub open spec fn spec_key_down(pre: MachineV, k: u8) -> MachineV {
    if (pre.status matches Status::WaitingForKey(x)) && !pre.keys[k as int] {
        MachineV {
            keys: pre.keys.update(k as int, true),
            v: pre.v.update(pre.status->WaitingForKey_0 as int, k),
            status: Status::Running,
            ..pre
        }
    } else {
        MachineV { keys: pre.keys.update(k as int, true), ..pre }
    }
}

/// The seed of the deterministic pseudo-random sequence a fresh machine
/// starts with.
pub const RNG_SEED: u32 = 0x2F6E2B1;

proof fn lemma_font_index(g: int, r: int)
    by (nonlinear_arith)
    requires
        0 <= g,
        0 <= r < 5,
    ensures
        (5 * g + r) / 5 == g,
        (5 * g + r) % 5 == r,
{
}

/// The five font rows of glyph `g`, as executable values.
fn font_rows(g: u8) -> (r: (u8, u8, u8, u8, u8))
    requires
        g < 16,
    ensures
        r == glyph_rows(g as int),
{
    if g == 0 {
        (0xF0, 0x90, 0x90, 0x90, 0xF0)
    } else if g == 1 {
        (0x20, 0x60, 0x20, 0x20, 0x70)
    } else if g == 2 {
        (0xF0, 0x10, 0xF0, 0x80, 0xF0)
    } else if g == 3 {
        (0xF0, 0x10, 0xF0, 0x10, 0xF0)
    } else if g == 4 {
        (0x90, 0x90, 0xF0, 0x10, 0x10)
    } else if g == 5 {
        (0xF0, 0x80, 0xF0, 0x10, 0xF0)
    } else if g == 6 {
        (0xF0, 0x80, 0xF0, 0x90, 0xF0)
    } else if g == 7 {
        (0xF0, 0x10, 0x20, 0x40, 0x40)
    } else if g == 8 {
        (0xF0, 0x90, 0xF0, 0x90, 0xF0)
    } else if g == 9 {
        (0xF0, 0x90, 0xF0, 0x10, 0xF0)
    } else if g == 10 {
        (0xF0, 0x90, 0xF0, 0x90, 0x90)
    } else if g == 11 {
        (0xE0, 0x90, 0xE0, 0x90, 0xE0)
    } else if g == 12 {
        (0xF0, 0x80, 0x80, 0x80, 0xF0)
    } else if g == 13 {
        (0xE0, 0x90, 0x90, 0x90, 0xE0)
    } else if g == 14 {
        (0xF0, 0x80, 0xF0, 0x80, 0xF0)
    } else {
        (0xF0, 0x80, 0xF0, 0x80, 0x80)
    }
}

impl Chip8 {
    /// Create a machine with the ROM loaded at 0x200, the font at 0x000,
    /// the program counter at 0x200, and everything else cleared.
    ///
    /// The ROM must fit in the 3584 bytes of memory above 0x200.
    pub fn new(rom: &[u8]) -> (m: Chip8)
        requires
            rom@.len() <= 3584,
        ensures
            m.wf(),
            m@.mem == spec_init_mem(rom@),
            m@.v == Seq::new(16, |j: int| 0u8),
            m@.i == 0,
            m@.pc == 0x200,
            m@.stack == Seq::<u16>::empty(),
            m@.delay == 0,
            m@.sound == 0,
            m@.screen == blank_screen(),
            m@.keys == Seq::new(16, |j: int| false),
            m@.status == Status::Running,
            m@.rng == RNG_SEED,
    {
        let mut memory: Vec<u8> = Vec::new();
        while memory.len() < 4096
            invariant
                memory@.len() <= 4096,
                forall|a: int| 0 <= a < memory@.len() ==> memory@[a] == 0u8,
            decreases 4096 - memory@.len(),
        {
            memory.push(0);
        }
        let mut g: usize = 0;
        while g < 16
            invariant
                g <= 16,
                memory@.len() == 4096,
                forall|a: int| 0 <= a < 5 * g ==> memory@[a] == font_at(a),
                forall|a: int| 5 * g <= a < 4096 ==> memory@[a] == 0u8,
            decreases 16 - g,
        {
            let rows = font_rows(g as u8);
            memory[5 * g] = rows.0;
            memory[5 * g + 1] = rows.1;
            memory[5 * g + 2] = rows.2;
            memory[5 * g + 3] = rows.3;
            memory[5 * g + 4] = rows.4;
            proof {
                lemma_font_index(g as int, 0);
                lemma_font_index(g as int, 1);
                lemma_font_index(g as int, 2);
                lemma_font_index(g as int, 3);
                lemma_font_index(g as int, 4);
            }
            g = g + 1;
        }
        let mut idx: usize = 0;
        while idx < rom.len()
            invariant
                idx <= rom@.len(),
                rom@.len() <= 3584,
                memory@.len() == 4096,
                forall|a: int| 0 <= a < 80 ==> memory@[a] == font_at(a),
                forall|a: int| 0x200 <= a < 0x200 + idx ==> memory@[a] == rom@[a - 0x200],
                forall|a: int| 80 <= a < 0x200 ==> memory@[a] == 0u8,
                forall|a: int| 0x200 + idx <= a < 4096 ==> memory@[a] == 0u8,
            decreases rom@.len() - idx,
        {
            memory[0x200 + idx] = rom[idx];
            idx = idx + 1;
        }
        let mut v: Vec<u8> = Vec::new();
        while v.len() < 16
            invariant
                v@.len() <= 16,
                forall|j: int| 0 <= j < v@.len() ==> v@[j] == 0u8,
            decreases 16 - v@.len(),
        {
            v.push(0);
        }
        let mut screen: Vec<bool> = Vec::new();
        while screen.len() < 2048
            invariant
                screen@.len() <= 2048,
                forall|j: int| 0 <= j < screen@.len() ==> screen@[j] == false,
            decreases 2048 - screen@.len(),
        {
            screen.push(false);
        }
        let mut keys_down: Vec<bool> = Vec::new();
        while keys_down.len() < 16
            invariant
                keys_down@.len() <= 16,
                forall|j: int| 0 <= j < keys_down@.len() ==> keys_down@[j] == false,
            decreases 16 - keys_down@.len(),
        {
            keys_down.push(false);
        }
        let m = Chip8 {
            memory,
            v,
            i: 0,
            pc: 0x200,
            stack: Vec::new(),
            delay_timer: 0,
            sound_timer: 0,
            screen,
            keys_down,
            status: Status::Running,
            rng: RNG_SEED,
        };
        proof {
            assert(m@.mem =~= spec_init_mem(rom@));
            assert(m@.v =~= Seq::new(16, |j: int| 0u8));
            assert(m@.screen =~= blank_screen());
            assert(m@.keys =~= Seq::new(16, |j: int| false));
        }
        m
    }

    /// Decrement both timers by one, saturating at zero. Runs once per
    /// scheduler tick; nothing else changes.
    pub fn tick_timers(&mut self)
        requires
            old(self).wf(),
        ensures
            final(self).wf(),
            final(self)@ == (MachineV {
                delay: dec_timer(old(self)@.delay),
                sound: dec_timer(old(self)@.sound),
                ..old(self)@
            }),
    {
        if self.delay_timer > 0 {
            self.delay_timer = self.delay_timer - 1;
        }
        if self.sound_timer > 0 {
            self.sound_timer = self.sound_timer - 1;
        }
    }

    /// Record a key press. A false-to-true transition while the machine is
    /// waiting for a key writes the key index to the waited-on register and
    /// resumes execution.
    pub fn key_down(&mut self, k: u8)
        requires
            old(self).wf(),
            k < 16,
        ensures
            final(self).wf(),
            final(self)@ == spec_key_down(old(self)@, k),
    {
        let was_down = self.keys_down[k as usize];
        self.keys_down[k as usize] = true;
        if !was_down {
            match self.status {
                Status::WaitingForKey(x) => {
                    self.v[x as usize] = k;
                    self.status = Status::Running;
                }
                _ => {}
            }
        }
    }

    /// Record a key release: the key's flag is cleared, nothing else changes.
    pub fn key_up(&mut self, k: u8)
        requires
            old(self).wf(),
            k < 16,
        ensures
            final(self).wf(),
            final(self)@ == (MachineV { keys: old(self)@.keys.update(k as int, false), ..old(self)@ }),
    {
        self.keys_down[k as usize] = false;
    }

    /// Whether the audio gate should be open this tick: exactly when the
    /// sound timer is nonzero.
    pub fn sound_active(&self) -> (b: bool)
        ensures
            b == (self@.sound > 0),
    {
        self.sound_timer > 0
    }

    /// The pixel at column `x`, row `y` of the framebuffer.
    pub fn pixel(&self, x: usize, y: usize) -> (b: bool)
        requires
            self.wf(),
            x < 64,
            y < 32,
        ensures
            b == self@.screen[y * 64 + x],
    {
        self.screen[y * 64 + x]
    }

    /// Whether the machine has reached the controlled-termination state.
    pub fn is_halted(&self) -> (b: bool)
        ensures
            b == (self@.status matches Status::Halted),
    {
        match self.status {
            Status::Halted => true,
            _ => false,
        }
    }
}

} // verus!
