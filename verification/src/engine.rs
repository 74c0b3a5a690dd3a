//! The execution engine: one machine that owns its registers, memory, call
//! stack, timers, screen and keypad, and runs one instruction for each cycle.

use vstd::prelude::*;
use crate::error::Chip8Error;
use crate::font::{font_table, glyph, FONT_BASE};
use crate::input::Keypad;
use crate::load::{copy_into, load_rom};
use crate::machine::{Machine, FLAG, PROGRAM_START, REGISTERS};
use crate::memory::{read_at, Ram, MEMORY_SIZE};
use crate::opcode::{decode, decoded_word_is_encoded, operands_fit, word, Instruction};
use crate::screen::{lit, Screen, SCREEN_HEIGHT, SCREEN_WIDTH};
use crate::sprite::Sprite;
use crate::stack::Stack;
use crate::timers::Timers;

verus! {

/// One CHIP-8 machine.
pub struct Engine {
    v: Vec<u8>,
    i: u16,
    pc: u16,
    memory: Ram,
    stack: Stack,
    timers: Timers,
    screen: Screen,
    keypad: Keypad,
    waiting: Option<u8>,
}

impl View for Engine {
    type V = Machine;

    /// The state of the machine as plain values.
    closed spec fn view(&self) -> Machine {
        Machine {
            v: self.v@,
            i: self.i,
            pc: self.pc,
            memory: self.memory@,
            stack: self.stack@,
            delay: self.timers.delay(),
            sound: self.timers.sound(),
            screen: self.screen@,
            keys: self.keypad@,
            waiting: self.waiting,
        }
    }
}

impl Engine {
    /// The parts of the machine have their fixed sizes.
    pub open spec fn wf(&self) -> bool {
        self@.wf()
    }

    /// A machine that was just switched on: the font is in memory, the
    /// program counter stands at `PROGRAM_START`, and all else is zero.
    pub fn new() -> (engine: Engine)
        ensures
            engine.wf(),
            engine@ == Machine::initial(),
    {
        let mut v: Vec<u8> = Vec::with_capacity(REGISTERS);
        let mut k: usize = 0;
        while k < REGISTERS
            invariant
                k <= REGISTERS,
                v@.len() == k,
                forall|j: int| 0 <= j < k ==> v@[j] == 0u8,
            decreases REGISTERS - k,
        {
            v.push(0);
            k += 1;
        }
        let mut memory: Ram = Ram::new();
        let table: Vec<u8> = font_table();
        let _ = copy_into(&mut memory, FONT_BASE as usize, &table);
        let engine = Engine {
            v,
            i: 0,
            pc: PROGRAM_START,
            memory,
            stack: Stack::new(),
            timers: Timers::new(0, 0),
            screen: Screen::new(),
            keypad: Keypad::new(),
            waiting: None,
        };
        assert(engine@.v =~= Machine::initial().v);
        engine
    }

    /// Loads the program `rom` at `PROGRAM_START` and sets the program
    /// counter to its first instruction; a machine that was halted for a
    /// key is halted no more. A program that does not fit in memory is
    /// refused, and the machine stays as it was.
    pub fn load_rom(&mut self, rom: &Vec<u8>) -> (res: Result<(), Chip8Error>)
        requires
            old(self).wf(),
        ensures
            final(self).wf(),
            match old(self)@.with_rom(rom@) {
                Ok(machine) => res == Ok::<(), Chip8Error>(()) && final(self)@ == machine,
                Err(e) => res == Err::<(), Chip8Error>(e) && final(self)@ == old(self)@,
            },
    {
        match load_rom(&mut self.memory, rom) {
            Ok(()) => {
                self.pc = PROGRAM_START;
                self.waiting = None;
                Ok(())
            },
            Err(e) => Err(e),
        }
    }

    /// One tick of the timers. The host calls this sixty times a second,
    /// whatever the rate at which it runs cycles.
    pub fn tick_timers(&mut self)
        requires
            old(self).wf(),
        ensures
            final(self).wf(),
            final(self)@ == old(self)@.ticked(),
    {
        self.timers.update();
    }

    /// Tells the machine that the key `key` went down. A machine that was
    /// halted for a key takes it and goes on. `OutOfBounds` if there is no
    /// such key; the machine then stays as it was.
    pub fn key_down(&mut self, key: u8) -> (res: Result<(), Chip8Error>)
        requires
            old(self).wf(),
        ensures
            final(self).wf(),
            match old(self)@.with_key_down(key) {
                Ok(machine) => res == Ok::<(), Chip8Error>(()) && final(self)@ == machine,
                Err(e) => res == Err::<(), Chip8Error>(e) && final(self)@ == old(self)@,
            },
    {
        match self.keypad.set(key, true) {
            Ok(()) => {},
            Err(e) => {
                return Err(e);
            },
        }
        match self.waiting {
            Some(x) => {
                self.v.set(x as usize, key);
                self.waiting = None;
                self.pc = self.pc + 2;
            },
            None => {},
        }
        Ok(())
    }

    /// Tells the machine that the key `key` went up. `OutOfBounds` if there
    /// is no such key; the machine then stays as it was.
    pub fn key_up(&mut self, key: u8) -> (res: Result<(), Chip8Error>)
        requires
            old(self).wf(),
        ensures
            final(self).wf(),
            match old(self)@.with_key_up(key) {
                Ok(machine) => res == Ok::<(), Chip8Error>(()) && final(self)@ == machine,
                Err(e) => res == Err::<(), Chip8Error>(e) && final(self)@ == old(self)@,
            },
    {
        self.keypad.set(key, false)
    }

    /// Runs one cycle: fetches the instruction word at the program counter,
    /// decodes it and executes the instruction. `random` is a byte of the
    /// host's choosing; only the random instruction looks at it. A machine
    /// that is halted for a key does nothing. Where the cycle fails the
    /// machine stays as it was.
    pub fn step(&mut self, random: u8) -> (res: Result<(), Chip8Error>)
        requires
            old(self).wf(),
        ensures
            final(self).wf(),
            match old(self)@.stepped(random) {
                Ok(machine) => res == Ok::<(), Chip8Error>(()) && final(self)@ == machine,
                Err(e) => res == Err::<(), Chip8Error>(e) && final(self)@ == old(self)@,
            },
    {
        if self.waiting.is_some() {
            return Ok(());
        }
        let hi: u8 = match self.memory.read(self.pc as usize) {
            Ok(byte) => byte,
            Err(e) => {
                return Err(e);
            },
        };
        let lo: u8 = match self.memory.read(self.pc as usize + 1) {
            Ok(byte) => byte,
            Err(e) => {
                return Err(e);
            },
        };
        let opcode: u16 = word(hi, lo);
        match decode(opcode) {
            Ok(instruction) => {
                proof {
                    decoded_word_is_encoded(opcode);
                }
                self.execute(instruction, random)
            },
            Err(e) => Err(e),
        }
    }

    /// Whether the instruction at the program counter and the one behind it
    /// lie inside memory.
    spec fn fetched_inside(&self) -> bool {
        self.pc + 2 <= MEMORY_SIZE
    }

    /// The value of a register that the instruction names.
    fn reg(&self, x: u8) -> (value: u8)
        requires
            self.wf(),
            x < REGISTERS,
        ensures
            value == self@.v[x as int],
    {
        self.v[x as usize]
    }

    /// Goes to the instruction at `pc`.
    fn jump(&mut self, pc: u16)
        requires
            old(self).wf(),
            old(self).waiting is None,
        ensures
            final(self).wf(),
            final(self)@ == old(self)@.jumped(pc as int),
    {
        self.pc = pc;
    }

    /// Goes to the next instruction.
    fn advance(&mut self)
        requires
            old(self).wf(),
            old(self).waiting is None,
            old(self).fetched_inside(),
        ensures
            final(self).wf(),
            final(self)@ == old(self)@.advanced(),
    {
        self.pc = self.pc + 2;
    }

    /// Goes to the next instruction, or to the one behind it if `skip`
    /// holds.
    fn skip(&mut self, skip: bool)
        requires
            old(self).wf(),
            old(self).waiting is None,
            old(self).fetched_inside(),
        ensures
            final(self).wf(),
            final(self)@ == old(self)@.skipped(skip),
    {
        if skip {
            self.pc = self.pc + 4;
        } else {
            self.pc = self.pc + 2;
        }
    }

    /// Puts `value` into register `x` and goes to the next instruction.
    fn load(&mut self, x: u8, value: u8)
        requires
            old(self).wf(),
            old(self).waiting is None,
            old(self).fetched_inside(),
            x < REGISTERS,
        ensures
            final(self).wf(),
            final(self)@ == old(self)@.loaded(x, value),
    {
        self.v.set(x as usize, value);
        self.pc = self.pc + 2;
    }

    /// Puts `value` into register `x`, then `flag` into the flag register,
    /// and goes to the next instruction.
    fn flag(&mut self, x: u8, value: u8, flag: bool)
        requires
            old(self).wf(),
            old(self).waiting is None,
            old(self).fetched_inside(),
            x < REGISTERS,
        ensures
            final(self).wf(),
            final(self)@ == old(self)@.flagged(x, value, flag),
    {
        self.v.set(x as usize, value);
        self.v.set(FLAG as usize, if flag { 1 } else { 0 });
        self.pc = self.pc + 2;
    }

    /// Executes one of the instructions on two registers.
    fn compute(&mut self, instruction: Instruction)
        requires
            old(self).wf(),
            old(self).waiting is None,
            old(self).fetched_inside(),
            operands_fit(instruction),
            instruction is LdReg || instruction is Or || instruction is And || instruction is Xor
                || instruction is AddReg || instruction is Sub || instruction is Shr
                || instruction is Subn || instruction is Shl,
        ensures
            final(self).wf(),
            final(self)@ == old(self)@.computed(instruction),
    {
        match instruction {
            Instruction::LdReg { x, y } => {
                let b: u8 = self.reg(y);
                self.load(x, b);
            },
            Instruction::Or { x, y } => {
                let a: u8 = self.reg(x);
                let b: u8 = self.reg(y);
                self.load(x, a | b);
            },
            Instruction::And { x, y } => {
                let a: u8 = self.reg(x);
                let b: u8 = self.reg(y);
                self.load(x, a & b);
            },
            Instruction::Xor { x, y } => {
                let a: u8 = self.reg(x);
                let b: u8 = self.reg(y);
                self.load(x, a ^ b);
            },
            Instruction::AddReg { x, y } => {
                let a: u8 = self.reg(x);
                let b: u8 = self.reg(y);
                let sum: u16 = a as u16 + b as u16;
                self.flag(x, (sum % 256) as u8, sum > 255);
            },
            Instruction::Sub { x, y } => {
                let a: u8 = self.reg(x);
                let b: u8 = self.reg(y);
                let difference: u8 = if a >= b {
                    a - b
                } else {
                    (256 - (b - a) as u16) as u8
                };
                self.flag(x, difference, a >= b);
            },
            Instruction::Shr { x, y } => {
                let a: u8 = self.reg(x);
                self.flag(x, a / 2, a % 2 == 1);
            },
            Instruction::Subn { x, y } => {
                let a: u8 = self.reg(x);
                let b: u8 = self.reg(y);
                let difference: u8 = if b >= a {
                    b - a
                } else {
                    (256 - (a - b) as u16) as u8
                };
                self.flag(x, difference, b >= a);
            },
            Instruction::Shl { x, y } => {
                let a: u8 = self.reg(x);
                self.flag(x, ((a as u16 * 2) % 256) as u8, a >= 128);
            },
            _ => {},
        }
    }

    /// Draws the `n` rows at the index register at the position held by
    /// registers `x` and `y`, and puts the collision into the flag register.
    fn draw(&mut self, x: u8, y: u8, n: u8) -> (res: Result<(), Chip8Error>)
        requires
            old(self).wf(),
            old(self).waiting is None,
            old(self).fetched_inside(),
            x < REGISTERS,
            y < REGISTERS,
            n < 16,
        ensures
            final(self).wf(),
            match old(self)@.sprite_drawn(x, y, n) {
                Ok(machine) => res == Ok::<(), Chip8Error>(()) && final(self)@ == machine,
                Err(e) => res == Err::<(), Chip8Error>(e) && final(self)@ == old(self)@,
            },
    {
        let left: u8 = self.reg(x);
        let top: u8 = self.reg(y);
        let bytes: Vec<u8> = match self.memory.read_seq(self.i as usize, n as usize) {
            Ok(bytes) => bytes,
            Err(e) => {
                return Err(e);
            },
        };
        let sprite: Sprite = match Sprite::new(bytes, n) {
            Ok(sprite) => sprite,
            Err(e) => {
                return Err(e);
            },
        };
        let rows: Vec<u8> = sprite.dump();
        assert(rows@ =~= sprite.lines());
        let hit: bool = self.screen.draw_sprite(left, top, &rows);
        self.v.set(FLAG as usize, if hit { 1 } else { 0 });
        self.pc = self.pc + 2;
        Ok(())
    }

    /// Stores registers 0 to `x` at the index register.
    fn store(&mut self, x: u8) -> (res: Result<(), Chip8Error>)
        requires
            old(self).wf(),
            old(self).waiting is None,
            old(self).fetched_inside(),
            x < REGISTERS,
        ensures
            final(self).wf(),
            match old(self)@.registers_stored(x) {
                Ok(machine) => res == Ok::<(), Chip8Error>(()) && final(self)@ == machine,
                Err(e) => res == Err::<(), Chip8Error>(e) && final(self)@ == old(self)@,
            },
    {
        let count: usize = x as usize + 1;
        let mut regs: Vec<u8> = Vec::with_capacity(count);
        let mut k: usize = count;
        while k > 0
            invariant
                k <= count,
                count <= REGISTERS,
                self.v@.len() == REGISTERS,
                regs@.len() == count - k,
                forall|j: int| 0 <= j < regs@.len() ==> regs@[j] == self.v@[count - 1 - j],
            decreases k,
        {
            k -= 1;
            regs.push(self.v[k]);
        }
        assert(regs@.reverse() =~= self.v@.subrange(0, count as int));
        match self.memory.write_seq(self.i as usize, &mut regs) {
            Ok(()) => {
                self.pc = self.pc + 2;
                Ok(())
            },
            Err(e) => Err(e),
        }
    }

    /// Loads registers 0 to `x` from the index register.
    fn restore(&mut self, x: u8) -> (res: Result<(), Chip8Error>)
        requires
            old(self).wf(),
            old(self).waiting is None,
            old(self).fetched_inside(),
            x < REGISTERS,
        ensures
            final(self).wf(),
            match old(self)@.registers_loaded(x) {
                Ok(machine) => res == Ok::<(), Chip8Error>(()) && final(self)@ == machine,
                Err(e) => res == Err::<(), Chip8Error>(e) && final(self)@ == old(self)@,
            },
    {
        let count: usize = x as usize + 1;
        let bytes: Vec<u8> = match self.memory.read_seq(self.i as usize, count) {
            Ok(bytes) => bytes,
            Err(e) => {
                return Err(e);
            },
        };
        let mut k: usize = 0;
        while k < count
            invariant
                k <= count,
                count <= REGISTERS,
                bytes@.len() == count,
                self.v@.len() == REGISTERS,
                old(self).v@.len() == REGISTERS,
                self.v@ == bytes@.subrange(0, k as int) + old(self).v@.subrange(
                    k as int,
                    REGISTERS as int,
                ),
                self.i == old(self).i,
                self.pc == old(self).pc,
                self.memory == old(self).memory,
                self.stack == old(self).stack,
                self.timers == old(self).timers,
                self.screen == old(self).screen,
                self.keypad == old(self).keypad,
                self.waiting == old(self).waiting,
            decreases count - k,
        {
            self.v.set(k, bytes[k]);
            k += 1;
            assert(self.v@ =~= bytes@.subrange(0, k as int) + old(self).v@.subrange(
                k as int,
                REGISTERS as int,
            ));
        }
        assert(bytes@.subrange(0, count as int) =~= bytes@);
        self.pc = self.pc + 2;
        Ok(())
    }

    /// Executes `instruction`. Where it fails the machine stays as it was.
    fn execute(&mut self, instruction: Instruction, random: u8) -> (res: Result<(), Chip8Error>)
        requires
            old(self).wf(),
            old(self).waiting is None,
            old(self).fetched_inside(),
            operands_fit(instruction),
        ensures
            final(self).wf(),
            match old(self)@.executed(instruction, random) {
                Ok(machine) => res == Ok::<(), Chip8Error>(()) && final(self)@ == machine,
                Err(e) => res == Err::<(), Chip8Error>(e) && final(self)@ == old(self)@,
            },
    {
        match instruction {
            Instruction::Sys { addr } => {
                self.advance();
                Ok(())
            },
            Instruction::Cls => {
                self.screen.clear();
                self.pc = self.pc + 2;
                Ok(())
            },
            Instruction::Ret => match self.stack.pop() {
                Ok(top) => {
                    self.pc = top;
                    Ok(())
                },
                Err(e) => Err(e),
            },
            Instruction::Jp { addr } => {
                self.jump(addr);
                Ok(())
            },
            Instruction::Call { addr } => match self.stack.push(self.pc + 2) {
                Ok(()) => {
                    self.pc = addr;
                    Ok(())
                },
                Err(e) => Err(e),
            },
            Instruction::SeByte { x, kk } => {
                let a: u8 = self.reg(x);
                self.skip(a == kk);
                Ok(())
            },
            Instruction::SneByte { x, kk } => {
                let a: u8 = self.reg(x);
                self.skip(a != kk);
                Ok(())
            },
            Instruction::SeReg { x, y } => {
                let a: u8 = self.reg(x);
                let b: u8 = self.reg(y);
                self.skip(a == b);
                Ok(())
            },
            Instruction::LdByte { x, kk } => {
                self.load(x, kk);
                Ok(())
            },
            Instruction::AddByte { x, kk } => {
                let a: u8 = self.reg(x);
                self.load(x, ((a as u16 + kk as u16) % 256) as u8);
                Ok(())
            },
            Instruction::LdReg { .. }
            | Instruction::Or { .. }
            | Instruction::And { .. }
            | Instruction::Xor { .. }
            | Instruction::AddReg { .. }
            | Instruction::Sub { .. }
            | Instruction::Shr { .. }
            | Instruction::Subn { .. }
            | Instruction::Shl { .. } => {
                self.compute(instruction);
                Ok(())
            },
            Instruction::SneReg { x, y } => {
                let a: u8 = self.reg(x);
                let b: u8 = self.reg(y);
                self.skip(a != b);
                Ok(())
            },
            Instruction::LdI { addr } => {
                self.i = addr;
                self.pc = self.pc + 2;
                Ok(())
            },
            Instruction::JpV0 { addr } => {
                let offset: u8 = self.reg(0);
                self.jump(addr + offset as u16);
                Ok(())
            },
            Instruction::Rnd { x, kk } => {
                self.load(x, random & kk);
                Ok(())
            },
            Instruction::Drw { x, y, n } => self.draw(x, y, n),
            Instruction::Skp { x } => {
                let a: u8 = self.reg(x);
                let down: bool = self.keypad.is_down(a);
                self.skip(down);
                Ok(())
            },
            Instruction::Sknp { x } => {
                let a: u8 = self.reg(x);
                let down: bool = self.keypad.is_down(a);
                self.skip(!down);
                Ok(())
            },
            Instruction::LdFromDelay { x } => {
                let value: u8 = self.timers.get();
                self.load(x, value);
                Ok(())
            },
            Instruction::LdKey { x } => {
                self.waiting = Some(x);
                Ok(())
            },
            Instruction::LdDelay { x } => {
                let a: u8 = self.reg(x);
                self.timers.set_delay(a);
                self.pc = self.pc + 2;
                Ok(())
            },
            Instruction::LdSound { x } => {
                let a: u8 = self.reg(x);
                self.timers.set_sound(a);
                self.pc = self.pc + 2;
                Ok(())
            },
            Instruction::AddI { x } => {
                let a: u8 = self.reg(x);
                self.i = ((self.i as u32 + a as u32) % 0x10000) as u16;
                self.pc = self.pc + 2;
                Ok(())
            },
            Instruction::LdFont { x } => {
                let a: u8 = self.reg(x);
                self.i = glyph(a);
                self.pc = self.pc + 2;
                Ok(())
            },
            Instruction::Bcd { x } => {
                let a: u8 = self.reg(x);
                match self.memory.write_bcd(self.i as usize, a) {
                    Ok(()) => {
                        self.pc = self.pc + 2;
                        Ok(())
                    },
                    Err(e) => Err(e),
                }
            },
            Instruction::Store { x } => self.store(x),
            Instruction::Load { x } => self.restore(x),
        }
    }

    /// The value of register `x`; `None` if there is no such register.
    pub fn register(&self, x: u8) -> (value: Option<u8>)
        requires
            self.wf(),
        ensures
            value == if x < REGISTERS {
                Some(self@.v[x as int])
            } else {
                None
            },
    {
        if (x as usize) < REGISTERS {
            Some(self.v[x as usize])
        } else {
            None
        }
    }

    /// The index register.
    pub fn index(&self) -> (i: u16)
        ensures
            i == self@.i,
    {
        self.i
    }

    /// The program counter.
    pub fn pc(&self) -> (pc: u16)
        ensures
            pc == self@.pc,
    {
        self.pc
    }

    /// The delay timer.
    pub fn delay(&self) -> (value: u8)
        ensures
            value == self@.delay,
    {
        self.timers.get()
    }

    /// The sound timer.
    pub fn sound(&self) -> (value: u8)
        ensures
            value == self@.sound,
    {
        self.timers.__get_sound()
    }

    /// Whether a tone is due: it is while the sound timer is above zero.
    pub fn tone(&self) -> (on: bool)
        ensures
            on == (self@.sound > 0),
    {
        self.timers.tone()
    }

    /// Whether the machine is halted until a key goes down.
    pub fn awaiting_key(&self) -> (halted: bool)
        ensures
            halted == (self@.waiting is Some),
    {
        self.waiting.is_some()
    }

    /// The number of return addresses on the call stack.
    pub fn stack_depth(&self) -> (n: usize)
        ensures
            n == self@.stack.len(),
    {
        self.stack.len()
    }

    /// The byte at `addr` in memory.
    pub fn peek(&self, addr: usize) -> (res: Result<u8, Chip8Error>)
        requires
            self.wf(),
        ensures
            res == read_at(self@.memory, addr as int),
    {
        self.memory.read(addr)
    }

    /// Whether the pixel in column `x` of row `y` is lit; `None` where there
    /// is no such pixel.
    pub fn pixel(&self, x: usize, y: usize) -> (p: Option<bool>)
        requires
            self.wf(),
        ensures
            p == if x < SCREEN_WIDTH && y < SCREEN_HEIGHT {
                Some(lit(self@.screen, x as int, y as int))
            } else {
                None
            },
    {
        self.screen.pixel(x, y)
    }

    /// The frame as it stands, for the host to present.
    pub fn frame(&self) -> (frame: Vec<bool>)
        requires
            self.wf(),
        ensures
            frame@ == self@.screen,
    {
        self.screen.refresh()
    }
}

} // verus!
