//! The interpreter engine: machine state, fetch/decode/execute, and the cycle.
use vstd::prelude::*;
use crate::font::FONT_SET;
use crate::machine::{
    blank_screen, first_pressed, skip_if, wrap16, Chip8Error, Machine, ProgramCounter,
};
use crate::{CHIP8_HEIGHT, CHIP8_RAM, CHIP8_WIDTH};

verus! {

/// Relies on rand::random: a byte drawn from the thread-local generator.
/// Nothing is known of its value.
#[verifier::external_body]
fn random_byte() -> (r: u8) {
    rand::random::<u8>()
}

/// An offset below `m` from `base`, taken modulo `m`, lands on exactly one
/// address below `m`.
proof fn lemma_wrap_index(base: int, k: int, a: int, m: int)
    requires
        0 <= base,
        0 <= k < m,
        0 <= a < m,
        m == 32 || m == 64 || m == 4096,
    ensures
        ((a - base) % m == k) <==> (a == (base + k) % m),
{
}

/// XOR facts on pixel values.
proof fn lemma_pixel_xor(a: u8, b: u8)
    ensures
        a ^ 0u8 == a,
        a <= 1 && b <= 1 ==> a ^ b <= 1,
{
    assert(a ^ 0u8 == a) by (bit_vector);
    assert(a <= 1 && b <= 1 ==> a ^ b <= 1) by (bit_vector);
}

/// The bit-level decoding of an instruction word agrees with its arithmetic
/// description.
proof fn lemma_decode(op: u16)
    ensures
        (op & 0xF000u16) >> 12u16 == op / 0x1000,
        (op & 0x0F00u16) >> 8u16 == (op / 0x100) % 0x10,
        (op & 0x00F0u16) >> 4u16 == (op / 0x10) % 0x10,
        op & 0x000Fu16 == op % 0x10,
        op & 0x00FFu16 == op % 0x100,
        op & 0x0FFFu16 == op % 0x1000,
        op == (op / 0x1000) * 0x1000 + ((op / 0x100) % 0x10) * 0x100 + ((op / 0x10) % 0x10) * 0x10
            + op % 0x10,
{
    assert((op & 0xF000u16) >> 12u16 == op / 0x1000) by (bit_vector);
    assert((op & 0x0F00u16) >> 8u16 == (op / 0x100) % 0x10) by (bit_vector);
    assert((op & 0x00F0u16) >> 4u16 == (op / 0x10) % 0x10) by (bit_vector);
    assert(op & 0x000Fu16 == op % 0x10) by (bit_vector);
    assert(op & 0x00FFu16 == op % 0x100) by (bit_vector);
    assert(op & 0x0FFFu16 == op % 0x1000) by (bit_vector);
    assert(op == (op / 0x1000) * 0x1000 + ((op / 0x100) % 0x10) * 0x100 + ((op / 0x10) % 0x10) * 0x10
        + op % 0x10) by (bit_vector);
}

/// Two bytes joined high byte first.
proof fn lemma_join(hi: u8, lo: u8)
    ensures
        ((hi as u16) << 8u16) | (lo as u16) == hi * 0x100 + lo,
{
    assert(((hi as u16) << 8u16) | (lo as u16) == hi * 0x100 + lo) by (bit_vector);
}

/// The interpreter: memory, registers, timers, call stack, framebuffer and
/// keypad of one machine.
pub struct CPU {
    v: [u8; 16],
    i: u16,
    sound_timer: u8,
    delay_timer: u8,
    pc: u16,
    sp: usize,
    ram: [u8; CHIP8_RAM],
    vram: [[u8; CHIP8_WIDTH]; CHIP8_HEIGHT],
    vram_changed: bool,
    stack: [u16; 16],
    keypad: [bool; 16],
    keypad_waiting: bool,
    keypad_register: usize,
}

/// What a cycle hands to the display and audio adapters.
pub struct OutputState<'a> {
    pub vram: &'a [[u8; CHIP8_WIDTH]; CHIP8_HEIGHT],
    pub vram_changed: bool,
    pub beep: bool,
}

/// The outcome of a cycle or an instruction, without what it hands out.
pub open spec fn status<T>(r: Result<T, Chip8Error>) -> Result<(), Chip8Error> {
    match r {
        Ok(_) => Ok(()),
        Err(e) => Err(e),
    }
}

/// One cycle of `before` with pad snapshot `keys` and random byte `rnd` ends in
/// `after` with outcome `r`; a faulting cycle leaves the machine as it was.
pub open spec fn cycle_ends(
    before: Machine,
    keys: Seq<bool>,
    rnd: u8,
    after: Machine,
    r: Result<(), Chip8Error>,
) -> bool {
    match before.cycle(keys, rnd) {
        Ok(m) => r is Ok && after == m,
        Err(e) => r == Err::<(), Chip8Error>(e) && after == before,
    }
}

/// The index of the lowest pressed key, if any.
fn lowest_pressed(keypad: &[bool; 16]) -> (r: Option<usize>)
    ensures
        r matches Some(k) ==> first_pressed(keypad@, 0) == Some(k as int),
        r is None ==> first_pressed(keypad@, 0) is None,
{
    let mut k: usize = 0;
    while k < 16
        invariant
            k <= 16,
            keypad@.len() == 16,
            first_pressed(keypad@, 0) == first_pressed(keypad@, k as int),
        decreases 16 - k,
    {
        if keypad[k] {
            return Some(k);
        }
        k += 1;
    }
    None
}

/// The framebuffer rows as sequences.
pub open spec fn screen_view(vram: [[u8; CHIP8_WIDTH]; CHIP8_HEIGHT]) -> Seq<Seq<u8>> {
    vram@.map_values(|row: [u8; CHIP8_WIDTH]| row@)
}

impl View for CPU {
    type V = Machine;

    closed spec fn view(&self) -> Machine {
        Machine {
            v: self.v@,
            i: self.i,
            sound_timer: self.sound_timer,
            delay_timer: self.delay_timer,
            pc: self.pc,
            sp: self.sp as int,
            ram: self.ram@,
            vram: screen_view(self.vram),
            vram_changed: self.vram_changed,
            stack: self.stack@,
            keypad: self.keypad@,
            keypad_waiting: self.keypad_waiting,
            keypad_register: self.keypad_register as int,
        }
    }
}

impl CPU {
    #[verifier::type_invariant]
    spec fn inv(self) -> bool {
        &&& self.sp <= 16
        &&& self.keypad_register < 16
        &&& forall|r: int, c: int|
            0 <= r < 32 && 0 <= c < 64 ==> #[trigger] self.vram[r][c] <= 1
    }

    /// The type invariant gives a well-formed model.
    proof fn lemma_wf(&self)
        requires
            self.inv(),
        ensures
            self@.wf(),
    {
        assert forall|r: int, c: int| 0 <= r < 32 && 0 <= c < 64 implies #[trigger] self@.vram[r][c] <= 1 by {
            assert(self@.vram[r][c] == self.vram[r][c]);
        }
    }

    /// A machine just switched on: the font at the bottom of memory, the
    /// program counter at 0x200, everything else zero.
    pub fn new() -> (cpu: CPU)
        ensures
            cpu@ == Machine::initial(),
    {
        let mut ram = [0u8; CHIP8_RAM];
        for k in 0..80
            invariant
                forall|j: int| 0 <= j < k ==> ram@[j] == FONT_SET@[j],
                forall|j: int| 80 <= j < 4096 ==> ram@[j] == 0,
        {
            ram[k] = FONT_SET[k];
        }
        let cpu = CPU {
            v: [0u8; 16],
            i: 0,
            sound_timer: 0,
            delay_timer: 0,
            pc: 0x200,
            sp: 0,
            ram,
            vram: [[0u8; CHIP8_WIDTH]; CHIP8_HEIGHT],
            vram_changed: false,
            stack: [0u16; 16],
            keypad: [false; 16],
            keypad_waiting: false,
            keypad_register: 0,
        };
        assert(cpu@.ram =~= Machine::initial().ram);
        assert(cpu@.vram =~= blank_screen()) by {
            assert forall|r: int| 0 <= r < 32 implies #[trigger] cpu@.vram[r] =~= blank_screen()[r] by {}
        }
        assert(cpu@.v =~= Machine::initial().v);
        assert(cpu@.stack =~= Machine::initial().stack);
        assert(cpu@.keypad =~= Machine::initial().keypad);
        cpu
    }

    /// Copies a program image into memory from 0x200 on. An image longer
    /// than the 0xE00 bytes up to the end of memory is refused, and nothing
    /// changes.
    pub fn load_program(&mut self, program: &[u8]) -> (r: Result<(), Chip8Error>)
        ensures
            program@.len() > 0xE00 ==> r == Err::<(), Chip8Error>(Chip8Error::OutOfBounds)
                && final(self)@ == old(self)@,
            program@.len() <= 0xE00 ==> r is Ok && final(self)@ == (Machine {
                ram: Seq::new(
                    4096,
                    |a: int|
                        if 0x200 <= a < 0x200 + program@.len() {
                            program@[a - 0x200]
                        } else {
                            old(self)@.ram[a]
                        },
                ),
                ..old(self)@
            }),
    {
        if program.len() > 0xE00 {
            return Err(Chip8Error::OutOfBounds);
        }
        let ghost before = self@;
        let mut k: usize = 0;
        while k < program.len()
            invariant
                program@.len() <= 0xE00,
                k <= program@.len(),
                self@ == (Machine { ram: self@.ram, ..before }),
                self@.ram.len() == 4096,
                forall|a: int|
                    0 <= a < 4096 ==> #[trigger] self@.ram[a] == if 0x200 <= a < 0x200 + k {
                        program@[a - 0x200]
                    } else {
                        before.ram[a]
                    },
            decreases program@.len() - k,
        {
            proof {
                use_type_invariant(&*self);
            }
            self.ram[0x200 + k] = program[k];
            k += 1;
        }
        assert(self@.ram =~= Seq::new(
            4096,
            |a: int|
                if 0x200 <= a < 0x200 + program@.len() {
                    program@[a - 0x200]
                } else {
                    before.ram[a]
                },
        ));
        Ok(())
    }


    /// The instruction word at the program counter.
    fn get_opcode(&self) -> (op: u16)
        ensures
            op == self@.fetch(),
    {
        let hi = self.ram[self.pc as usize % CHIP8_RAM];
        let lo = self.ram[(self.pc as usize + 1) % CHIP8_RAM];
        proof {
            lemma_join(hi, lo);
        }
        (hi as u16) << 8u16 | (lo as u16)
    }

    /// The stack fault that `opcode` would raise on this machine, if any.
    fn stack_fault(&self, opcode: u16) -> (r: Option<Chip8Error>)
        ensures
            r == self@.fault(opcode),
    {
        proof {
            lemma_decode(opcode);
        }
        if opcode == 0x00EE && self.sp == 0 {
            Some(Chip8Error::StackUnderflow)
        } else if (opcode & 0xF000) >> 12 == 0x2 && self.sp >= 16 {
            Some(Chip8Error::StackOverflow)
        } else {
            None
        }
    }

    /// Runs one instruction word, with `rnd` as the random byte of the
    /// random-number instruction, and moves the program counter. A return on
    /// an empty stack or a call on a full one is refused, and nothing changes.
    #[verifier::rlimit(50)]
    pub fn execute(&mut self, opcode: u16, rnd: u8) -> (r: Result<(), Chip8Error>)
        ensures
            old(self)@.fault(opcode) matches Some(e) ==> r == Err::<(), Chip8Error>(e)
                && final(self)@ == old(self)@,
            old(self)@.fault(opcode) is None ==> r is Ok && final(self)@ == old(self)@.execute(
                opcode,
                rnd,
            ),
    {
        if let Some(e) = self.stack_fault(opcode) {
            return Err(e);
        }
        proof {
            use_type_invariant(&*self);
            lemma_decode(opcode);
        }
        let parts = (
            (opcode & 0xF000) >> 12,
            (opcode & 0x0F00) >> 8,
            (opcode & 0x00F0) >> 4,
            opcode & 0x000F,
        );
        let x = parts.1 as usize;
        let y = parts.2 as usize;
        let n = parts.3 as usize;
        let kk = (opcode & 0x00FF) as u8;
        let nnn = opcode & 0x0FFF;
        let pc_change = match parts {
            (0x0, 0x0, 0xE, 0x0) => self.op_00e0(),
            (0x0, 0x0, 0xE, 0xE) => self.op_00ee(),
            (0x1, _, _, _) => self.op_1nnn(nnn),
            (0x2, _, _, _) => self.op_2nnn(nnn),
            (0x3, _, _, _) => self.op_3xkk(x, kk),
            (0x4, _, _, _) => self.op_4xkk(x, kk),
            (0x5, _, _, 0x0) => self.op_5xy0(x, y),
            (0x6, _, _, _) => self.op_6xkk(x, kk),
            (0x7, _, _, _) => self.op_7xkk(x, kk),
            (0x8, _, _, 0x0) => self.op_8xy0(x, y),
            (0x8, _, _, 0x1) => self.op_8xy1(x, y),
            (0x8, _, _, 0x2) => self.op_8xy2(x, y),
            (0x8, _, _, 0x3) => self.op_8xy3(x, y),
            (0x8, _, _, 0x4) => self.op_8xy4(x, y),
            (0x8, _, _, 0x5) => self.op_8xy5(x, y),
            (0x8, _, _, 0x6) => self.op_8xy6(x),
            (0x8, _, _, 0x7) => self.op_8xy7(x, y),
            (0x8, _, _, 0xE) => self.op_8xye(x),
            (0x9, _, _, 0x0) => self.op_9xy0(x, y),
            (0xA, _, _, _) => self.op_annn(nnn),
            (0xB, _, _, _) => self.op_bnnn(nnn),
            (0xC, _, _, _) => self.op_cxkk(x, kk, rnd),
            (0xD, _, _, _) => self.op_dxyn(x, y, n),
            (0xE, _, 0x9, 0xE) => self.op_ex9e(x),
            (0xE, _, 0xA, 0x1) => self.op_exa1(x),
            (0xF, _, 0x0, 0x7) => self.op_fx07(x),
            (0xF, _, 0x0, 0xA) => self.op_fx0a(x),
            (0xF, _, 0x1, 0x5) => self.op_fx15(x),
            (0xF, _, 0x1, 0x8) => self.op_fx18(x),
            (0xF, _, 0x1, 0xE) => self.op_fx1e(x),
            (0xF, _, 0x2, 0x9) => self.op_fx29(x),
            (0xF, _, 0x3, 0x3) => self.op_fx33(x),
            (0xF, _, 0x5, 0x5) => self.op_fx55(x),
            (0xF, _, 0x6, 0x5) => self.op_fx65(x),
            _ => ProgramCounter::Next,
        };
        proof {
            use_type_invariant(&*self);
        }
        match pc_change {
            ProgramCounter::Next => self.pc = ((self.pc as u32 + 2) % 0x10000) as u16,
            ProgramCounter::Skip => self.pc = ((self.pc as u32 + 4) % 0x10000) as u16,
            ProgramCounter::Jump(addr) => self.pc = addr,
        }
        Ok(())
    }

    /// Runs one instruction word and moves the program counter; the
    /// random-number instruction draws its byte from the thread's generator.
    pub fn run_opcode(&mut self, opcode: u16) -> (r: Result<(), Chip8Error>)
        ensures
            old(self)@.fault(opcode) matches Some(e) ==> r == Err::<(), Chip8Error>(e)
                && final(self)@ == old(self)@,
            old(self)@.fault(opcode) is None ==> r is Ok && exists|rnd: u8|
                final(self)@ == #[trigger] old(self)@.execute(opcode, rnd),
    {
        let rnd = random_byte();
        self.execute(opcode, rnd)
    }

    /// One cycle with pad snapshot `keypad` and `rnd` as the byte for the
    /// random-number instruction: a pending key wait is served, or else the
    /// timers count down and one instruction runs.
    pub fn step(&mut self, keypad: [bool; 16], rnd: u8) -> (r: Result<OutputState<'_>, Chip8Error>)
        ensures
            cycle_ends(old(self)@, keypad@, rnd, final(self)@, status(r)),
            r matches Ok(o) ==> screen_view(*o.vram) == final(self)@.vram && o.vram_changed
                == final(self)@.vram_changed && o.beep == (final(self)@.sound_timer > 0),
    {
        proof {
            use_type_invariant(&*self);
        }
        if self.keypad_waiting {
            self.keypad = keypad;
            self.vram_changed = false;
            if let Some(k) = lowest_pressed(&keypad) {
                self.keypad_waiting = false;
                self.v[self.keypad_register] = k as u8;
            }
        } else {
            let opcode = self.get_opcode();
            if let Some(e) = self.stack_fault(opcode) {
                return Err(e);
            }
            self.keypad = keypad;
            self.vram_changed = false;
            if self.delay_timer > 0 {
                self.delay_timer -= 1;
            }
            if self.sound_timer > 0 {
                self.sound_timer -= 1;
            }
            let _ = self.execute(opcode, rnd);
        }
        Ok(OutputState { vram: &self.vram, vram_changed: self.vram_changed, beep: self.sound_timer > 0 })
    }

    /// One cycle with pad snapshot `keypad`, the random-number instruction
    /// drawing its byte from the thread's generator.
    pub fn tick(&mut self, keypad: [bool; 16]) -> (r: Result<OutputState<'_>, Chip8Error>)
        ensures
            exists|rnd: u8| #[trigger] cycle_ends(old(self)@, keypad@, rnd, final(self)@, status(r)),
            r matches Ok(o) ==> screen_view(*o.vram) == final(self)@.vram && o.vram_changed
                == final(self)@.vram_changed && o.beep == (final(self)@.sound_timer > 0),
    {
        let rnd = random_byte();
        self.step(keypad, rnd)
    }


    /// The program counter.
    pub fn pc(&self) -> (r: u16)
        ensures
            r == self@.pc,
    {
        self.pc
    }

    pub fn set_pc(&mut self, pc: u16)
        ensures
            final(self)@ == (Machine { pc, ..old(self)@ }),
    {
        proof {
            use_type_invariant(&*self);
        }
        self.pc = pc;
    }

    /// The stack pointer: how many return addresses the stack holds.
    pub fn sp(&self) -> (r: usize)
        ensures
            r == self@.sp,
    {
        self.sp
    }

    pub fn set_sp(&mut self, sp: usize)
        requires
            sp <= 16,
        ensures
            final(self)@ == (Machine { sp: sp as int, ..old(self)@ }),
    {
        proof {
            use_type_invariant(&*self);
        }
        self.sp = sp;
    }

    /// The sixteen slots of the call stack.
    pub fn stack(&self) -> (r: [u16; 16])
        ensures
            r@ == self@.stack,
    {
        self.stack
    }

    pub fn set_stack_entry(&mut self, k: usize, addr: u16)
        requires
            k < 16,
        ensures
            final(self)@ == (Machine { stack: old(self)@.stack.update(k as int, addr), ..old(self)@ }),
    {
        proof {
            use_type_invariant(&*self);
        }
        self.stack[k] = addr;
    }

    /// General register `k`.
    pub fn register(&self, k: usize) -> (r: u8)
        requires
            k < 16,
        ensures
            r == self@.v[k as int],
    {
        self.v[k]
    }

    /// The sixteen general registers.
    pub fn registers(&self) -> (r: [u8; 16])
        ensures
            r@ == self@.v,
    {
        self.v
    }

    pub fn set_register(&mut self, k: usize, val: u8)
        requires
            k < 16,
        ensures
            final(self)@ == old(self)@.set_reg(k as int, val),
    {
        proof {
            use_type_invariant(&*self);
        }
        self.v[k] = val;
    }

    pub fn set_registers(&mut self, v: [u8; 16])
        ensures
            final(self)@ == (Machine { v: v@, ..old(self)@ }),
    {
        proof {
            use_type_invariant(&*self);
        }
        self.v = v;
    }

    /// The address register I.
    pub fn i(&self) -> (r: u16)
        ensures
            r == self@.i,
    {
        self.i
    }

    pub fn set_i(&mut self, i: u16)
        ensures
            final(self)@ == (Machine { i, ..old(self)@ }),
    {
        proof {
            use_type_invariant(&*self);
        }
        self.i = i;
    }

    /// The byte at address `addr`.
    pub fn memory(&self, addr: usize) -> (r: u8)
        requires
            addr < 4096,
        ensures
            r == self@.ram[addr as int],
    {
        self.ram[addr]
    }

    pub fn set_memory(&mut self, addr: usize, byte: u8)
        requires
            addr < 4096,
        ensures
            final(self)@ == (Machine { ram: old(self)@.ram.update(addr as int, byte), ..old(self)@ }),
    {
        proof {
            use_type_invariant(&*self);
        }
        self.ram[addr] = byte;
    }

    /// The framebuffer cell at `row`, `col`: 1 when lit, 0 when not.
    pub fn pixel(&self, row: usize, col: usize) -> (r: u8)
        requires
            row < 32,
            col < 64,
        ensures
            r == self@.vram[row as int][col as int],
    {
        self.vram[row][col]
    }

    /// Lights the cell at `row`, `col` when `value` is nonzero, and clears it
    /// otherwise.
    pub fn set_pixel(&mut self, row: usize, col: usize, value: u8)
        requires
            row < 32,
            col < 64,
        ensures
            final(self)@ == (Machine {
                vram: old(self)@.vram.update(
                    row as int,
                    old(self)@.vram[row as int].update(col as int, if value != 0 { 1u8 } else { 0u8 }),
                ),
                ..old(self)@
            }),
    {
        proof {
            use_type_invariant(&*self);
        }
        let ghost prev = self@.vram;
        self.vram[row][col] = if value != 0 { 1 } else { 0 };
        proof {
            let lit: u8 = if value != 0 { 1u8 } else { 0u8 };
            assert(self@.vram =~= prev.update(row as int, prev[row as int].update(col as int, lit))) by {
                assert forall|r: int| 0 <= r < 32 implies #[trigger] self@.vram[r] =~= prev.update(
                    row as int,
                    prev[row as int].update(col as int, lit),
                )[r] by {}
            }
        }
    }

    /// The whole framebuffer.
    pub fn vram(&self) -> (r: &[[u8; CHIP8_WIDTH]; CHIP8_HEIGHT])
        ensures
            screen_view(*r) == self@.vram,
    {
        &self.vram
    }

    /// Whether the last cycle changed the framebuffer.
    pub fn vram_changed(&self) -> (r: bool)
        ensures
            r == self@.vram_changed,
    {
        self.vram_changed
    }

    /// Whether the machine waits for a key.
    pub fn keypad_waiting(&self) -> (r: bool)
        ensures
            r == self@.keypad_waiting,
    {
        self.keypad_waiting
    }

    /// The register that a pending key wait fills.
    pub fn keypad_register(&self) -> (r: usize)
        ensures
            r == self@.keypad_register,
    {
        self.keypad_register
    }

    pub fn set_key(&mut self, k: usize, pressed: bool)
        requires
            k < 16,
        ensures
            final(self)@ == (Machine { keypad: old(self)@.keypad.update(k as int, pressed), ..old(self)@ }),
    {
        proof {
            use_type_invariant(&*self);
        }
        self.keypad[k] = pressed;
    }

    pub fn delay_timer(&self) -> (r: u8)
        ensures
            r == self@.delay_timer,
    {
        self.delay_timer
    }

    pub fn set_delay_timer(&mut self, t: u8)
        ensures
            final(self)@ == (Machine { delay_timer: t, ..old(self)@ }),
    {
        proof {
            use_type_invariant(&*self);
        }
        self.delay_timer = t;
    }

    pub fn sound_timer(&self) -> (r: u8)
        ensures
            r == self@.sound_timer,
    {
        self.sound_timer
    }

    pub fn set_sound_timer(&mut self, t: u8)
        ensures
            final(self)@ == (Machine { sound_timer: t, ..old(self)@ }),
    {
        proof {
            use_type_invariant(&*self);
        }
        self.sound_timer = t;
    }

    fn op_00e0(&mut self) -> (r: ProgramCounter)
        ensures
            (final(self)@, r) == old(self)@.clear_screen(),
    {
        proof {
            use_type_invariant(&*self);
        }
        self.vram = [[0u8; CHIP8_WIDTH]; CHIP8_HEIGHT];
        self.vram_changed = true;
        assert(self@.vram =~= blank_screen()) by {
            assert forall|r: int| 0 <= r < 32 implies #[trigger] self@.vram[r] =~= blank_screen()[r] by {}
        }
        ProgramCounter::Next
    }

    fn op_00ee(&mut self) -> (r: ProgramCounter)
        requires
            old(self)@.sp > 0,
        ensures
            (final(self)@, r) == old(self)@.return_from_call(),
    {
        proof {
            use_type_invariant(&*self);
        }
        self.sp -= 1;
        ProgramCounter::Jump(self.stack[self.sp])
    }

    fn op_1nnn(&mut self, nnn: u16) -> (r: ProgramCounter)
        ensures
            final(self)@ == old(self)@,
            r == ProgramCounter::Jump(nnn),
    {
        ProgramCounter::Jump(nnn)
    }

    fn op_2nnn(&mut self, nnn: u16) -> (r: ProgramCounter)
        requires
            old(self)@.sp < 16,
        ensures
            (final(self)@, r) == old(self)@.call(nnn),
    {
        proof {
            use_type_invariant(&*self);
        }
        self.stack[self.sp] = ((self.pc as u32 + 2) % 0x10000) as u16;
        self.sp += 1;
        ProgramCounter::Jump(nnn)
    }

    fn op_3xkk(&mut self, x: usize, kk: u8) -> (r: ProgramCounter)
        requires
            x < 16,
        ensures
            final(self)@ == old(self)@,
            r == skip_if(old(self)@.v[x as int] == kk),
    {
        if self.v[x] == kk {
            ProgramCounter::Skip
        } else {
            ProgramCounter::Next
        }
    }

    fn op_4xkk(&mut self, x: usize, kk: u8) -> (r: ProgramCounter)
        requires
            x < 16,
        ensures
            final(self)@ == old(self)@,
            r == skip_if(old(self)@.v[x as int] != kk),
    {
        if self.v[x] != kk {
            ProgramCounter::Skip
        } else {
            ProgramCounter::Next
        }
    }

    fn op_5xy0(&mut self, x: usize, y: usize) -> (r: ProgramCounter)
        requires
            x < 16,
            y < 16,
        ensures
            final(self)@ == old(self)@,
            r == skip_if(old(self)@.v[x as int] == old(self)@.v[y as int]),
    {
        if self.v[x] == self.v[y] {
            ProgramCounter::Skip
        } else {
            ProgramCounter::Next
        }
    }

    fn op_6xkk(&mut self, x: usize, kk: u8) -> (r: ProgramCounter)
        requires
            x < 16,
        ensures
            final(self)@ == old(self)@.set_reg(x as int, kk),
            r == ProgramCounter::Next,
    {
        proof {
            use_type_invariant(&*self);
        }
        self.v[x] = kk;
        ProgramCounter::Next
    }

    fn op_7xkk(&mut self, x: usize, kk: u8) -> (r: ProgramCounter)
        requires
            x < 16,
        ensures
            final(self)@ == old(self)@.set_reg(x as int, old(self)@.add_byte(x as int, kk)),
            r == ProgramCounter::Next,
    {
        proof {
            use_type_invariant(&*self);
        }
        let vx = self.v[x] as u16;
        let val = kk as u16;
        self.v[x] = ((vx + val) % 0x100) as u8;
        ProgramCounter::Next
    }

    fn op_8xy0(&mut self, x: usize, y: usize) -> (r: ProgramCounter)
        requires
            x < 16,
            y < 16,
        ensures
            final(self)@ == old(self)@.set_reg(x as int, old(self)@.v[y as int]),
            r == ProgramCounter::Next,
    {
        proof {
            use_type_invariant(&*self);
        }
        self.v[x] = self.v[y];
        ProgramCounter::Next
    }

    fn op_8xy1(&mut self, x: usize, y: usize) -> (r: ProgramCounter)
        requires
            x < 16,
            y < 16,
        ensures
            final(self)@ == old(self)@.set_reg(x as int, old(self)@.v[x as int] | old(self)@.v[y as int]),
            r == ProgramCounter::Next,
    {
        proof {
            use_type_invariant(&*self);
        }
        self.v[x] = self.v[x] | self.v[y];
        ProgramCounter::Next
    }

    fn op_8xy2(&mut self, x: usize, y: usize) -> (r: ProgramCounter)
        requires
            x < 16,
            y < 16,
        ensures
            final(self)@ == old(self)@.set_reg(x as int, old(self)@.v[x as int] & old(self)@.v[y as int]),
            r == ProgramCounter::Next,
    {
        proof {
            use_type_invariant(&*self);
        }
        self.v[x] = self.v[x] & self.v[y];
        ProgramCounter::Next
    }

    fn op_8xy3(&mut self, x: usize, y: usize) -> (r: ProgramCounter)
        requires
            x < 16,
            y < 16,
        ensures
            final(self)@ == old(self)@.set_reg(x as int, old(self)@.v[x as int] ^ old(self)@.v[y as int]),
            r == ProgramCounter::Next,
    {
        proof {
            use_type_invariant(&*self);
        }
        self.v[x] = self.v[x] ^ self.v[y];
        ProgramCounter::Next
    }

    fn op_8xy4(&mut self, x: usize, y: usize) -> (r: ProgramCounter)
        requires
            x < 16,
            y < 16,
        ensures
            (final(self)@, r) == old(self)@.add_registers(x as int, y as int),
    {
        proof {
            use_type_invariant(&*self);
        }
        let vx = self.v[x] as u16;
        let vy = self.v[y] as u16;
        let res = vx + vy;
        let carry: u8 = if res > 255 { 1 } else { 0 };
        self.v[x] = (res % 0x100) as u8;
        self.v[0x0f] = carry;
        ProgramCounter::Next
    }

    fn op_8xy5(&mut self, x: usize, y: usize) -> (r: ProgramCounter)
        requires
            x < 16,
            y < 16,
        ensures
            (final(self)@, r) == old(self)@.sub_registers(x as int, y as int),
    {
        proof {
            use_type_invariant(&*self);
        }
        let vx = self.v[x];
        let vy = self.v[y];
        self.v[x] = vx.wrapping_sub(vy);
        self.v[0xF] = if vx > vy { 1 } else { 0 };
        ProgramCounter::Next
    }

    fn op_8xy6(&mut self, x: usize) -> (r: ProgramCounter)
        requires
            x < 16,
        ensures
            (final(self)@, r) == old(self)@.shift_right(x as int),
    {
        proof {
            use_type_invariant(&*self);
        }
        let vx = self.v[x];
        assert(vx >> 1u8 == vx / 2 && vx & 1u8 == vx % 2) by (bit_vector);
        self.v[x] = vx >> 1u8;
        self.v[0xF] = vx & 1u8;
        ProgramCounter::Next
    }

    fn op_8xy7(&mut self, x: usize, y: usize) -> (r: ProgramCounter)
        requires
            x < 16,
            y < 16,
        ensures
            (final(self)@, r) == old(self)@.sub_reversed(x as int, y as int),
    {
        proof {
            use_type_invariant(&*self);
        }
        let vx = self.v[x];
        let vy = self.v[y];
        self.v[x] = vy.wrapping_sub(vx);
        self.v[0xF] = if vy > vx { 1 } else { 0 };
        ProgramCounter::Next
    }

    fn op_8xye(&mut self, x: usize) -> (r: ProgramCounter)
        requires
            x < 16,
        ensures
            (final(self)@, r) == old(self)@.shift_left(x as int),
    {
        proof {
            use_type_invariant(&*self);
        }
        let vx = self.v[x];
        assert(vx << 1u8 == (vx * 2) % 0x100 && (vx & 0x80u8) >> 7u8 == vx / 0x80) by (bit_vector);
        self.v[x] = vx << 1u8;
        self.v[0xF] = (vx & 0x80u8) >> 7u8;
        ProgramCounter::Next
    }

    fn op_9xy0(&mut self, x: usize, y: usize) -> (r: ProgramCounter)
        requires
            x < 16,
            y < 16,
        ensures
            final(self)@ == old(self)@,
            r == skip_if(old(self)@.v[x as int] != old(self)@.v[y as int]),
    {
        if self.v[x] != self.v[y] {
            ProgramCounter::Skip
        } else {
            ProgramCounter::Next
        }
    }

    fn op_annn(&mut self, nnn: u16) -> (r: ProgramCounter)
        ensures
            final(self)@ == (Machine { i: nnn, ..old(self)@ }),
            r == ProgramCounter::Next,
    {
        proof {
            use_type_invariant(&*self);
        }
        self.i = nnn;
        ProgramCounter::Next
    }

    fn op_bnnn(&mut self, nnn: u16) -> (r: ProgramCounter)
        requires
            nnn < 0x1000,
        ensures
            final(self)@ == old(self)@,
            r == ProgramCounter::Jump(wrap16(nnn + old(self)@.v[0])),
    {
        ProgramCounter::Jump(nnn + (self.v[0] as u16))
    }

    fn op_cxkk(&mut self, x: usize, kk: u8, rnd: u8) -> (r: ProgramCounter)
        requires
            x < 16,
        ensures
            final(self)@ == old(self)@.set_reg(x as int, rnd & kk),
            r == ProgramCounter::Next,
    {
        proof {
            use_type_invariant(&*self);
        }
        self.v[x] = rnd & kk;
        ProgramCounter::Next
    }

    fn op_ex9e(&mut self, x: usize) -> (r: ProgramCounter)
        requires
            x < 16,
        ensures
            final(self)@ == old(self)@,
            r == skip_if(old(self)@.key_pressed(old(self)@.v[x as int])),
    {
        let key = self.v[x];
        if key < 16 && self.keypad[key as usize] {
            ProgramCounter::Skip
        } else {
            ProgramCounter::Next
        }
    }

    fn op_exa1(&mut self, x: usize) -> (r: ProgramCounter)
        requires
            x < 16,
        ensures
            final(self)@ == old(self)@,
            r == skip_if(!old(self)@.key_pressed(old(self)@.v[x as int])),
    {
        let key = self.v[x];
        if !(key < 16 && self.keypad[key as usize]) {
            ProgramCounter::Skip
        } else {
            ProgramCounter::Next
        }
    }

    fn op_fx07(&mut self, x: usize) -> (r: ProgramCounter)
        requires
            x < 16,
        ensures
            final(self)@ == old(self)@.set_reg(x as int, old(self)@.delay_timer),
            r == ProgramCounter::Next,
    {
        proof {
            use_type_invariant(&*self);
        }
        self.v[x] = self.delay_timer;
        ProgramCounter::Next
    }

    fn op_fx0a(&mut self, x: usize) -> (r: ProgramCounter)
        requires
            x < 16,
        ensures
            final(self)@ == (Machine { keypad_waiting: true, keypad_register: x as int, ..old(self)@ }),
            r == ProgramCounter::Next,
    {
        proof {
            use_type_invariant(&*self);
        }
        self.keypad_waiting = true;
        self.keypad_register = x;
        ProgramCounter::Next
    }

    fn op_fx15(&mut self, x: usize) -> (r: ProgramCounter)
        requires
            x < 16,
        ensures
            final(self)@ == (Machine { delay_timer: old(self)@.v[x as int], ..old(self)@ }),
            r == ProgramCounter::Next,
    {
        proof {
            use_type_invariant(&*self);
        }
        self.delay_timer = self.v[x];
        ProgramCounter::Next
    }

    fn op_fx18(&mut self, x: usize) -> (r: ProgramCounter)
        requires
            x < 16,
        ensures
            final(self)@ == (Machine { sound_timer: old(self)@.v[x as int], ..old(self)@ }),
            r == ProgramCounter::Next,
    {
        proof {
            use_type_invariant(&*self);
        }
        self.sound_timer = self.v[x];
        ProgramCounter::Next
    }

    fn op_fx1e(&mut self, x: usize) -> (r: ProgramCounter)
        requires
            x < 16,
        ensures
            (final(self)@, r) == old(self)@.add_address(x as int),
    {
        proof {
            use_type_invariant(&*self);
        }
        let sum = self.i as u32 + self.v[x] as u32;
        self.i = (sum % 0x10000) as u16;
        self.v[0x0f] = if sum > 0x0FFF { 1 } else { 0 };
        ProgramCounter::Next
    }

    fn op_fx29(&mut self, x: usize) -> (r: ProgramCounter)
        requires
            x < 16,
        ensures
            final(self)@ == (Machine { i: (old(self)@.v[x as int] * 5) as u16, ..old(self)@ }),
            r == ProgramCounter::Next,
    {
        proof {
            use_type_invariant(&*self);
        }
        self.i = (self.v[x] as u16) * 5;
        ProgramCounter::Next
    }

    fn op_fx33(&mut self, x: usize) -> (r: ProgramCounter)
        requires
            x < 16,
        ensures
            (final(self)@, r) == old(self)@.store_bcd(x as int),
    {
        proof {
            use_type_invariant(&*self);
        }
        let vx = self.v[x];
        let base = self.i as usize;
        self.ram[base % CHIP8_RAM] = vx / 100;
        self.ram[(base + 1) % CHIP8_RAM] = (vx / 10) % 10;
        self.ram[(base + 2) % CHIP8_RAM] = vx % 10;
        ProgramCounter::Next
    }

    fn op_fx55(&mut self, x: usize) -> (r: ProgramCounter)
        requires
            x < 16,
        ensures
            (final(self)@, r) == old(self)@.store_registers(x as int),
    {
        let ghost m = self@;
        let base = self.i as usize;
        let mut k: usize = 0;
        while k < x + 1
            invariant
                x < 16,
                k <= x + 1,
                base == m.i,
                m.ram.len() == 4096,
                self@ == (Machine { ram: self@.ram, ..m }),
                self@.ram.len() == 4096,
                forall|a: int|
                    0 <= a < 4096 ==> #[trigger] self@.ram[a] == if (a - base) % 4096 < k {
                        m.v[(a - base) % 4096]
                    } else {
                        m.ram[a]
                    },
            decreases x + 1 - k,
        {
            proof {
                use_type_invariant(&*self);
            }
            self.ram[(base + k) % CHIP8_RAM] = self.v[k];
            assert forall|a: int| 0 <= a < 4096 implies #[trigger] self@.ram[a] == if (a - base) % 4096 < k + 1 {
                m.v[(a - base) % 4096]
            } else {
                m.ram[a]
            } by {
                lemma_wrap_index(base as int, k as int, a, 4096);
            }
            k += 1;
        }
        assert(self@.ram =~= m.store_registers(x as int).0.ram);
        ProgramCounter::Next
    }

    fn op_fx65(&mut self, x: usize) -> (r: ProgramCounter)
        requires
            x < 16,
        ensures
            (final(self)@, r) == old(self)@.load_registers(x as int),
    {
        let ghost m = self@;
        let base = self.i as usize;
        let mut k: usize = 0;
        while k < x + 1
            invariant
                x < 16,
                k <= x + 1,
                base == m.i,
                m.v.len() == 16,
                self@ == (Machine { v: self@.v, ..m }),
                self@.v.len() == 16,
                forall|j: int|
                    0 <= j < 16 ==> #[trigger] self@.v[j] == if j < k {
                        m.ram[(base + j) % 4096]
                    } else {
                        m.v[j]
                    },
            decreases x + 1 - k,
        {
            proof {
                use_type_invariant(&*self);
            }
            self.v[k] = self.ram[(base + k) % CHIP8_RAM];
            k += 1;
        }
        assert(self@.v =~= m.load_registers(x as int).0.v);
        ProgramCounter::Next
    }

    /// Draws `n` sprite rows from memory at I onto the framebuffer at
    /// (Vx, Vy), both read before the instruction changes VF.
    #[verifier::rlimit(40)]
    fn op_dxyn(&mut self, x: usize, y: usize, n: usize) -> (r: ProgramCounter)
        requires
            x < 16,
            y < 16,
            n < 16,
        ensures
            (final(self)@, r) == old(self)@.draw(x as int, y as int, n as int),
    {
        proof {
            use_type_invariant(&*self);
            self.lemma_wf();
        }
        let ghost m = self@;
        let vx = self.v[x];
        let vy = self.v[y];
        let base = self.i as usize;
        let mut hit = false;
        let mut row: usize = 0;
        while row < n
            invariant
                row <= n < 16,
                m.wf(),
                vx == m.v[x as int],
                vy == m.v[y as int],
                base == m.i,
                self@ == (Machine { vram: self@.vram, ..m }),
                self@.vram.len() == 32,
                forall|r: int| 0 <= r < 32 ==> #[trigger] self@.vram[r].len() == 64,
                forall|r: int, c: int|
                    0 <= r < 32 && 0 <= c < 64 ==> #[trigger] self@.vram[r][c] == if (r - vy) % 32 < row {
                        m.vram[r][c] ^ m.sprite_pixel(vx, vy, n as int, r, c)
                    } else {
                        m.vram[r][c]
                    },
                hit <==> exists|r: int, c: int|
                    0 <= r < 32 && 0 <= c < 64 && (r - vy) % 32 < row
                        && #[trigger] m.sprite_pixel(vx, vy, n as int, r, c) == 1 && m.vram[r][c] == 1,
            decreases n - row,
        {
            let rr = (vy as usize + row) % CHIP8_HEIGHT;
            let byte = self.ram[(base + row) % CHIP8_RAM];
            let mut bit: usize = 0;
            while bit < 8
                invariant
                    row < n < 16,
                    bit <= 8,
                    m.wf(),
                    vx == m.v[x as int],
                    vy == m.v[y as int],
                    base == m.i,
                    rr == (vy + row) % 32,
                    byte == m.ram[(base + row) % 4096],
                    self@ == (Machine { vram: self@.vram, ..m }),
                    self@.vram.len() == 32,
                    forall|r: int| 0 <= r < 32 ==> #[trigger] self@.vram[r].len() == 64,
                    forall|r: int, c: int|
                        0 <= r < 32 && 0 <= c < 64 ==> #[trigger] self@.vram[r][c] == if (r - vy) % 32 < row
                            || (r == rr && (c - vx) % 64 < bit) {
                            m.vram[r][c] ^ m.sprite_pixel(vx, vy, n as int, r, c)
                        } else {
                            m.vram[r][c]
                        },
                    hit <==> exists|r: int, c: int|
                        0 <= r < 32 && 0 <= c < 64 && ((r - vy) % 32 < row || (r == rr && (c - vx) % 64 < bit))
                            && #[trigger] m.sprite_pixel(vx, vy, n as int, r, c) == 1 && m.vram[r][c] == 1,
                decreases 8 - bit,
            {
                let cc = (vx as usize + bit) % CHIP8_WIDTH;
                let color = (byte >> ((7 - bit) as u8)) & 1u8;
                let cell = self.vram[rr][cc];
                proof {
                    use_type_invariant(&*self);
                    lemma_wrap_index(vy as int, row as int, rr as int, 32);
                    lemma_wrap_index(vx as int, bit as int, cc as int, 64);
                    assert(color <= 1) by (bit_vector)
                        requires color == (byte >> ((7 - bit) as u8)) & 1u8;
                    assert(m.sprite_pixel(vx, vy, n as int, rr as int, cc as int) == color);
                    assert(cell == self@.vram[rr as int][cc as int]);
                    assert(cell == m.vram[rr as int][cc as int]);
                    lemma_pixel_xor(cell, color);
                }
                if color == 1 && cell == 1 {
                    hit = true;
                }
                let ghost prev = self@.vram;
                self.vram[rr][cc] = cell ^ color;
                proof {
                    assert forall|r: int, c: int| 0 <= r < 32 && 0 <= c < 64 implies #[trigger] self@.vram[r][c]
                        == if r == rr && c == cc {
                        cell ^ color
                    } else {
                        prev[r][c]
                    } by {
                        assert(self@.vram[r][c] == self.vram[r][c]);
                    }
                    assert forall|r: int, c: int| 0 <= r < 32 && 0 <= c < 64 implies #[trigger] self@.vram[r][c]
                        == if (r - vy) % 32 < row || (r == rr && (c - vx) % 64 < bit + 1) {
                        m.vram[r][c] ^ m.sprite_pixel(vx, vy, n as int, r, c)
                    } else {
                        m.vram[r][c]
                    } by {
                        lemma_wrap_index(vy as int, row as int, r, 32);
                        lemma_wrap_index(vx as int, bit as int, c, 64);
                    }
                }
                bit += 1;
            }
            proof {
                assert forall|r: int, c: int| 0 <= r < 32 && 0 <= c < 64 implies #[trigger] self@.vram[r][c]
                    == if (r - vy) % 32 < row + 1 {
                    m.vram[r][c] ^ m.sprite_pixel(vx, vy, n as int, r, c)
                } else {
                    m.vram[r][c]
                } by {
                    lemma_wrap_index(vy as int, row as int, r, 32);
                    if r == rr && (c - vx) % 64 >= 8 {
                        lemma_pixel_xor(m.vram[r][c], 0);
                    }
                }
            }
            row += 1;
        }
        proof {
            use_type_invariant(&*self);
        }
        self.v[0x0f] = if hit { 1 } else { 0 };
        self.vram_changed = true;
        proof {
            let d = m.drawn(vx, vy, n as int);
            assert forall|r: int| 0 <= r < 32 implies #[trigger] self@.vram[r] =~= d[r] by {
                assert forall|c: int| 0 <= c < 64 implies self@.vram[r][c] == d[r][c] by {
                    if (r - vy) % 32 >= n {
                        lemma_pixel_xor(m.vram[r][c], 0);
                    }
                }
            }
            assert(self@.vram =~= d);
        }
        ProgramCounter::Next
    }
}

} // verus!
