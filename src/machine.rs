//! The abstract machine: what the interpreter's state means, and what each
//! instruction and each cycle does to it, stated as spec functions.
use vstd::prelude::*;
use crate::font::FONT_SET;

verus! {

/// Where an instruction leaves the program counter once it has run.
pub enum ProgramCounter {
    /// On to the following instruction (two bytes further).
    Next,
    /// Over the following instruction (four bytes further).
    Skip,
    /// To the given address exactly.
    Jump(u16),
}

/// A fault of the interpreted program that stops the cycle loop.
#[derive(Debug, Clone, Copy, PartialEq, Eq, Structural)]
pub enum Chip8Error {
    /// A program image larger than the memory above the load address.
    OutOfBounds,
    /// A call made while all sixteen stack slots are in use.
    StackOverflow,
    /// A return executed with an empty call stack.
    StackUnderflow,
}

/// Everything the interpreter holds, as mathematical values.
pub ghost struct Machine {
    pub v: Seq<u8>,
    pub i: u16,
    pub sound_timer: u8,
    pub delay_timer: u8,
    pub pc: u16,
    pub sp: int,
    pub ram: Seq<u8>,
    /// Rows of the framebuffer, top first; a cell holds 1 when lit.
    pub vram: Seq<Seq<u8>>,
    pub vram_changed: bool,
    pub stack: Seq<u16>,
    pub keypad: Seq<bool>,
    pub keypad_waiting: bool,
    pub keypad_register: int,
}

/// The instruction group: the most significant nibble.
pub open spec fn group(op: u16) -> int {
    op as int / 0x1000
}

/// The second nibble, a register index.
pub open spec fn nibble_x(op: u16) -> int {
    (op as int / 0x100) % 0x10
}

/// The third nibble, a register index.
pub open spec fn nibble_y(op: u16) -> int {
    (op as int / 0x10) % 0x10
}

/// The least significant nibble.
pub open spec fn nibble_n(op: u16) -> int {
    op as int % 0x10
}

/// The low byte of an instruction word.
pub open spec fn byte_operand(op: u16) -> u8 {
    (op as int % 0x100) as u8
}

/// The low twelve bits of an instruction word.
pub open spec fn address_operand(op: u16) -> u16 {
    (op as int % 0x1000) as u16
}

/// A 16-bit quantity taken modulo 2^16.
pub open spec fn wrap16(a: int) -> u16 {
    (a % 0x10000) as u16
}

/// A countdown timer after one cycle: one less, but never below zero.
pub open spec fn count_down(t: u8) -> u8 {
    if t > 0 {
        (t - 1) as u8
    } else {
        0
    }
}

pub open spec fn skip_if(c: bool) -> ProgramCounter {
    if c {
        ProgramCounter::Skip
    } else {
        ProgramCounter::Next
    }
}

/// The lowest index at or above `from` of a pressed key, if any.
pub open spec fn first_pressed(keys: Seq<bool>, from: int) -> Option<int>
    decreases keys.len() - from,
{
    if from < 0 || from >= keys.len() {
        None
    } else if keys[from] {
        Some(from)
    } else {
        first_pressed(keys, from + 1)
    }
}

/// A framebuffer with every cell unlit.
pub open spec fn blank_screen() -> Seq<Seq<u8>> {
    Seq::new(32, |r: int| Seq::new(64, |c: int| 0u8))
}

impl Machine {
    pub open spec fn wf(self) -> bool {
        &&& self.v.len() == 16
        &&& self.ram.len() == 4096
        &&& self.stack.len() == 16
        &&& self.keypad.len() == 16
        &&& self.vram.len() == 32
        &&& forall|r: int| 0 <= r < 32 ==> #[trigger] self.vram[r].len() == 64
        &&& forall|r: int, c: int| 0 <= r < 32 && 0 <= c < 64 ==> #[trigger] self.vram[r][c] <= 1
        &&& 0 <= self.sp <= 16
        &&& 0 <= self.keypad_register < 16
    }

    /// The state of a machine that has just been switched on.
    pub open spec fn initial() -> Machine {
        Machine {
            v: Seq::new(16, |k: int| 0u8),
            i: 0,
            sound_timer: 0,
            delay_timer: 0,
            pc: 0x200,
            sp: 0,
            ram: Seq::new(4096, |a: int| if a < 80 { FONT_SET@[a] } else { 0u8 }),
            vram: blank_screen(),
            vram_changed: false,
            stack: Seq::new(16, |k: int| 0u16),
            keypad: Seq::new(16, |k: int| false),
            keypad_waiting: false,
            keypad_register: 0,
        }
    }

    pub open spec fn set_reg(self, k: int, val: u8) -> Machine {
        Machine { v: self.v.update(k, val), ..self }
    }

    /// The two bytes at the program counter, high byte first.
    pub open spec fn fetch(self) -> u16 {
        (self.ram[self.pc as int % 4096] as int * 0x100 + self.ram[(self.pc as int + 1) % 4096] as int) as u16
    }

    /// Whether key `k` is on the pad and pressed; no key above 0xF ever is.
    pub open spec fn key_pressed(self, k: u8) -> bool {
        k < 16 && self.keypad[k as int]
    }

    pub open spec fn advance(self, d: ProgramCounter) -> Machine {
        Machine {
            pc: match d {
                ProgramCounter::Next => wrap16(self.pc + 2),
                ProgramCounter::Skip => wrap16(self.pc + 4),
                ProgramCounter::Jump(a) => a,
            },
            ..self
        }
    }

    pub open spec fn clear_screen(self) -> (Machine, ProgramCounter) {
        (Machine { vram: blank_screen(), vram_changed: true, ..self }, ProgramCounter::Next)
    }

    pub open spec fn return_from_call(self) -> (Machine, ProgramCounter) {
        (Machine { sp: self.sp - 1, ..self }, ProgramCounter::Jump(self.stack[self.sp - 1]))
    }

    pub open spec fn call(self, nnn: u16) -> (Machine, ProgramCounter) {
        (
            Machine {
                stack: self.stack.update(self.sp, wrap16(self.pc + 2)),
                sp: self.sp + 1,
                ..self
            },
            ProgramCounter::Jump(nnn),
        )
    }

    pub open spec fn add_byte(self, x: int, kk: u8) -> u8 {
        ((self.v[x] + kk) % 0x100) as u8
    }

    // In the arithmetic instructions below VF is written after VX, so that it
    // holds the flag even when it is also the destination.
    pub open spec fn add_registers(self, x: int, y: int) -> (Machine, ProgramCounter) {
        let sum = self.v[x] + self.v[y];
        (
            self.set_reg(x, (sum % 0x100) as u8).set_reg(15, if sum > 0xFF { 1u8 } else { 0u8 }),
            ProgramCounter::Next,
        )
    }

    pub open spec fn sub_registers(self, x: int, y: int) -> (Machine, ProgramCounter) {
        (
            self.set_reg(x, ((self.v[x] - self.v[y] + 0x100) % 0x100) as u8).set_reg(
                15,
                if self.v[x] > self.v[y] { 1u8 } else { 0u8 },
            ),
            ProgramCounter::Next,
        )
    }

    pub open spec fn sub_reversed(self, x: int, y: int) -> (Machine, ProgramCounter) {
        (
            self.set_reg(x, ((self.v[y] - self.v[x] + 0x100) % 0x100) as u8).set_reg(
                15,
                if self.v[y] > self.v[x] { 1u8 } else { 0u8 },
            ),
            ProgramCounter::Next,
        )
    }

    pub open spec fn shift_right(self, x: int) -> (Machine, ProgramCounter) {
        (
            self.set_reg(x, (self.v[x] / 2) as u8).set_reg(15, (self.v[x] % 2) as u8),
            ProgramCounter::Next,
        )
    }

    pub open spec fn shift_left(self, x: int) -> (Machine, ProgramCounter) {
        (
            self.set_reg(x, ((self.v[x] * 2) % 0x100) as u8).set_reg(15, (self.v[x] / 0x80) as u8),
            ProgramCounter::Next,
        )
    }

    /// Sprite bit that a draw at (`vx`, `vy`) of `n` rows lays on cell (`r`, `c`):
    /// the cell is hit by sprite row `(r - vy) mod 32` and bit `(c - vx) mod 64`,
    /// when those fall inside the sprite.
    pub open spec fn sprite_pixel(self, vx: u8, vy: u8, n: int, r: int, c: int) -> u8 {
        let row = (r - vy) % 32;
        let bit = (c - vx) % 64;
        if row < n && bit < 8 {
            (self.ram[(self.i + row) % 4096] >> ((7 - bit) as u8)) & 1u8
        } else {
            0u8
        }
    }

    /// The framebuffer with the sprite XORed onto it.
    pub open spec fn drawn(self, vx: u8, vy: u8, n: int) -> Seq<Seq<u8>> {
        Seq::new(
            32,
            |r: int| Seq::new(64, |c: int| self.vram[r][c] ^ self.sprite_pixel(vx, vy, n, r, c)),
        )
    }

    /// Whether the sprite lands on some lit cell, which the draw turns off.
    pub open spec fn collides(self, vx: u8, vy: u8, n: int) -> bool {
        exists|r: int, c: int|
            0 <= r < 32 && 0 <= c < 64 && #[trigger] self.sprite_pixel(vx, vy, n, r, c) == 1
                && self.vram[r][c] == 1
    }

    pub open spec fn draw(self, x: int, y: int, n: int) -> (Machine, ProgramCounter) {
        let vx = self.v[x];
        let vy = self.v[y];
        (
            Machine { vram: self.drawn(vx, vy, n), vram_changed: true, ..self }.set_reg(
                15,
                if self.collides(vx, vy, n) { 1u8 } else { 0u8 },
            ),
            ProgramCounter::Next,
        )
    }

    pub open spec fn add_address(self, x: int) -> (Machine, ProgramCounter) {
        let sum = self.i + self.v[x];
        (
            Machine { i: wrap16(sum), ..self }.set_reg(15, if sum > 0xFFF { 1u8 } else { 0u8 }),
            ProgramCounter::Next,
        )
    }

    pub open spec fn store_bcd(self, x: int) -> (Machine, ProgramCounter) {
        let vx = self.v[x];
        (
            Machine {
                ram: self.ram.update(self.i as int % 4096, (vx / 100) as u8).update(
                    (self.i + 1) % 4096,
                    ((vx / 10) % 10) as u8,
                ).update((self.i + 2) % 4096, (vx % 10) as u8),
                ..self
            },
            ProgramCounter::Next,
        )
    }

    /// Registers 0..=x written to memory from I on, addresses wrapping.
    pub open spec fn store_registers(self, x: int) -> (Machine, ProgramCounter) {
        (
            Machine {
                ram: Seq::new(
                    4096,
                    |a: int|
                        if (a - self.i) % 4096 <= x {
                            self.v[(a - self.i) % 4096]
                        } else {
                            self.ram[a]
                        },
                ),
                ..self
            },
            ProgramCounter::Next,
        )
    }

    /// Registers 0..=x read from memory from I on, addresses wrapping.
    pub open spec fn load_registers(self, x: int) -> (Machine, ProgramCounter) {
        (
            Machine {
                v: Seq::new(
                    16,
                    |k: int|
                        if k <= x {
                            self.ram[(self.i + k) % 4096]
                        } else {
                            self.v[k]
                        },
                ),
                ..self
            },
            ProgramCounter::Next,
        )
    }

    /// What one instruction does, before the program counter moves, and where
    /// it sends the program counter; `rnd` is the byte drawn for the random
    /// instruction. A word that names no instruction does nothing.
    pub open spec fn handle(self, op: u16, rnd: u8) -> (Machine, ProgramCounter) {
        let g = group(op);
        let x = nibble_x(op);
        let y = nibble_y(op);
        let n = nibble_n(op);
        let kk = byte_operand(op);
        let nnn = address_operand(op);
        let vx = self.v[x];
        let vy = self.v[y];
        if op == 0x00E0 {
            self.clear_screen()
        } else if op == 0x00EE {
            self.return_from_call()
        } else if g == 0x1 {
            (self, ProgramCounter::Jump(nnn))
        } else if g == 0x2 {
            self.call(nnn)
        } else if g == 0x3 {
            (self, skip_if(vx == kk))
        } else if g == 0x4 {
            (self, skip_if(vx != kk))
        } else if g == 0x5 && n == 0x0 {
            (self, skip_if(vx == vy))
        } else if g == 0x6 {
            (self.set_reg(x, kk), ProgramCounter::Next)
        } else if g == 0x7 {
            (self.set_reg(x, self.add_byte(x, kk)), ProgramCounter::Next)
        } else if g == 0x8 && n == 0x0 {
            (self.set_reg(x, vy), ProgramCounter::Next)
        } else if g == 0x8 && n == 0x1 {
            (self.set_reg(x, vx | vy), ProgramCounter::Next)
        } else if g == 0x8 && n == 0x2 {
            (self.set_reg(x, vx & vy), ProgramCounter::Next)
        } else if g == 0x8 && n == 0x3 {
            (self.set_reg(x, vx ^ vy), ProgramCounter::Next)
        } else if g == 0x8 && n == 0x4 {
            self.add_registers(x, y)
        } else if g == 0x8 && n == 0x5 {
            self.sub_registers(x, y)
        } else if g == 0x8 && n == 0x6 {
            self.shift_right(x)
        } else if g == 0x8 && n == 0x7 {
            self.sub_reversed(x, y)
        } else if g == 0x8 && n == 0xE {
            self.shift_left(x)
        } else if g == 0x9 && n == 0x0 {
            (self, skip_if(vx != vy))
        } else if g == 0xA {
            (Machine { i: nnn, ..self }, ProgramCounter::Next)
        } else if g == 0xB {
            (self, ProgramCounter::Jump(wrap16(nnn + self.v[0])))
        } else if g == 0xC {
            (self.set_reg(x, rnd & kk), ProgramCounter::Next)
        } else if g == 0xD {
            self.draw(x, y, n)
        } else if g == 0xE && y == 0x9 && n == 0xE {
            (self, skip_if(self.key_pressed(vx)))
        } else if g == 0xE && y == 0xA && n == 0x1 {
            (self, skip_if(!self.key_pressed(vx)))
        } else if g == 0xF && y == 0x0 && n == 0x7 {
            (self.set_reg(x, self.delay_timer), ProgramCounter::Next)
        } else if g == 0xF && y == 0x0 && n == 0xA {
            (Machine { keypad_waiting: true, keypad_register: x, ..self }, ProgramCounter::Next)
        } else if g == 0xF && y == 0x1 && n == 0x5 {
            (Machine { delay_timer: vx, ..self }, ProgramCounter::Next)
        } else if g == 0xF && y == 0x1 && n == 0x8 {
            (Machine { sound_timer: vx, ..self }, ProgramCounter::Next)
        } else if g == 0xF && y == 0x1 && n == 0xE {
            self.add_address(x)
        } else if g == 0xF && y == 0x2 && n == 0x9 {
            (Machine { i: (vx * 5) as u16, ..self }, ProgramCounter::Next)
        } else if g == 0xF && y == 0x3 && n == 0x3 {
            self.store_bcd(x)
        } else if g == 0xF && y == 0x5 && n == 0x5 {
            self.store_registers(x)
        } else if g == 0xF && y == 0x6 && n == 0x5 {
            self.load_registers(x)
        } else {
            (self, ProgramCounter::Next)
        }
    }

    /// The stack fault that instruction `op` would raise, if any.
    pub open spec fn fault(self, op: u16) -> Option<Chip8Error> {
        if op == 0x00EE && self.sp == 0 {
            Some(Chip8Error::StackUnderflow)
        } else if group(op) == 0x2 && self.sp >= 16 {
            Some(Chip8Error::StackOverflow)
        } else {
            None
        }
    }

    /// The machine after instruction `op` has run and moved the program counter.
    pub open spec fn execute(self, op: u16, rnd: u8) -> Machine {
        let (m, d) = self.handle(op, rnd);
        m.advance(d)
    }

    /// A pending key wait served from the pad: the lowest pressed key goes to
    /// the target register and ends the wait; with no key pressed nothing changes.
    pub open spec fn serve_key_wait(self) -> Machine {
        match first_pressed(self.keypad, 0) {
            Some(k) => Machine { keypad_waiting: false, ..self }.set_reg(self.keypad_register, k as u8),
            None => self,
        }
    }

    /// One cycle with pad snapshot `keys`: a pending key wait is served, or else
    /// the timers count down and the instruction at the program counter runs.
    /// A stack fault ends the cycle with an error.
    pub open spec fn cycle(self, keys: Seq<bool>, rnd: u8) -> Result<Machine, Chip8Error> {
        let s = Machine { keypad: keys, vram_changed: false, ..self };
        if self.keypad_waiting {
            Ok(s.serve_key_wait())
        } else {
            let op = self.fetch();
            match self.fault(op) {
                Some(e) => Err(e),
                None => Ok(
                    Machine {
                        delay_timer: count_down(self.delay_timer),
                        sound_timer: count_down(self.sound_timer),
                        ..s
                    }.execute(op, rnd),
                ),
            }
        }
    }
}

} // verus!
