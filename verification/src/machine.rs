//! What the machine is and what each instruction does to it, stated over
//! plain values. The engine is held to these statements.

use vstd::prelude::*;
use crate::error::Chip8Error;
use crate::font::{font, glyph_address, FONT_BASE};
use crate::memory::{bcd_written, overwrite, read_at, read_span, span_inside, MEMORY_SIZE};
use crate::opcode::{
    decoded, decoded_word_is_encoded, encoded_word_is_decoded, operands_fit, word_is_big_endian,
    word_of, Instruction,
};
use crate::screen::{blank, collides, drawn, drawn_keeps_size, SCREEN_PIXELS};
use crate::stack::{popped, pushed, STACK_DEPTH};
use crate::timers::ticked;

verus! {

/// The number of general registers.
pub const REGISTERS: usize = 16;

/// The number of keys of the keypad.
pub const KEYS: usize = 16;

/// The number of the register that doubles as the flag.
pub const FLAG: u8 = 0xF;

/// The address at which a program is loaded and starts.
pub const PROGRAM_START: u16 = 0x200;

/// The state of one machine.
pub struct Machine {
    /// The sixteen general registers; the last of them is the flag.
    pub v: Seq<u8>,
    /// The index register.
    pub i: u16,
    /// The program counter.
    pub pc: u16,
    /// The memory, by address.
    pub memory: Seq<u8>,
    /// The call stack, the oldest return address first.
    pub stack: Seq<u16>,
    /// The delay timer.
    pub delay: u8,
    /// The sound timer.
    pub sound: u8,
    /// The pixels of the screen, row after row.
    pub screen: Seq<bool>,
    /// For each key, whether it is down.
    pub keys: Seq<bool>,
    /// The register that waits for the number of the next key that goes
    /// down, if the machine is halted for one.
    pub waiting: Option<u8>,
}

/// The byte that stands for a flag.
pub open spec fn flag_byte(flag: bool) -> u8 {
    if flag {
        1
    } else {
        0
    }
}

impl Machine {
    /// The sizes of the parts of the machine are fixed. A machine that is
    /// halted for a key waits with one of the sixteen registers, at an
    /// instruction that lies inside memory.
    pub open spec fn wf(self) -> bool {
        &&& self.v.len() == REGISTERS
        &&& self.memory.len() == MEMORY_SIZE
        &&& self.stack.len() <= STACK_DEPTH
        &&& self.screen.len() == SCREEN_PIXELS
        &&& self.keys.len() == KEYS
        &&& (self.waiting matches Some(x) ==> x < REGISTERS && self.pc + 2 <= MEMORY_SIZE)
    }

    /// A machine that was just switched on: everything is zero, dark, empty
    /// and up, but for the font in memory and the program counter, which
    /// stands at the start of the program.
    pub open spec fn initial() -> Machine {
        Machine {
            v: Seq::new(REGISTERS as nat, |k: int| 0u8),
            i: 0,
            pc: PROGRAM_START,
            memory: overwrite(Seq::new(MEMORY_SIZE as nat, |a: int| 0u8), FONT_BASE as int, font()),
            stack: Seq::empty(),
            delay: 0,
            sound: 0,
            screen: blank(),
            keys: Seq::new(KEYS as nat, |k: int| false),
            waiting: None,
        }
    }

    /// The machine after the program `rom` was loaded, or `OutOfBounds` if
    /// the program does not fit between its start and the end of memory.
    /// The program counter stands at the start of the program, and a
    /// machine that was halted for a key is halted no more. Registers,
    /// stack, timers, screen and keys are left as they are.
    pub open spec fn with_rom(self, rom: Seq<u8>) -> Result<Machine, Chip8Error> {
        if PROGRAM_START + rom.len() <= MEMORY_SIZE {
            Ok(
                Machine {
                    memory: overwrite(self.memory, PROGRAM_START as int, rom),
                    pc: PROGRAM_START,
                    waiting: None,
                    ..self
                },
            )
        } else {
            Err(Chip8Error::OutOfBounds)
        }
    }

    /// The machine one timer tick later.
    pub open spec fn ticked(self) -> Machine {
        Machine { delay: ticked(self.delay), sound: ticked(self.sound), ..self }
    }

    /// The machine after the key `key` went down. A machine that was halted
    /// for a key takes the number of the key into the waiting register and
    /// goes on behind the instruction that made it wait.
    pub open spec fn with_key_down(self, key: u8) -> Result<Machine, Chip8Error> {
        if key < KEYS {
            let pressed = Machine { keys: self.keys.update(key as int, true), ..self };
            match self.waiting {
                Some(x) => Ok(
                    Machine {
                        v: self.v.update(x as int, key),
                        waiting: None,
                        ..pressed
                    }.advanced(),
                ),
                None => Ok(pressed),
            }
        } else {
            Err(Chip8Error::OutOfBounds)
        }
    }

    /// The machine after the key `key` went up.
    pub open spec fn with_key_up(self, key: u8) -> Result<Machine, Chip8Error> {
        if key < KEYS {
            Ok(Machine { keys: self.keys.update(key as int, false), ..self })
        } else {
            Err(Chip8Error::OutOfBounds)
        }
    }

    /// The instruction word at the program counter: the byte there is its
    /// high byte, the next one its low byte.
    pub open spec fn fetched(self) -> Result<u16, Chip8Error> {
        match (read_at(self.memory, self.pc as int), read_at(self.memory, self.pc + 1)) {
            (Ok(hi), Ok(lo)) => Ok(word_of(hi, lo)),
            _ => Err(Chip8Error::OutOfBounds),
        }
    }

    /// The machine with the program counter at `pc`.
    pub open spec fn jumped(self, pc: int) -> Machine {
        Machine { pc: pc as u16, ..self }
    }

    /// The machine with the program counter at the next instruction.
    pub open spec fn advanced(self) -> Machine {
        self.jumped(self.pc + 2)
    }

    /// The machine with the program counter behind the next instruction if
    /// `skip` holds, and at the next instruction if not.
    pub open spec fn skipped(self, skip: bool) -> Machine {
        self.jumped(
            if skip {
                self.pc + 4
            } else {
                self.pc + 2
            },
        )
    }

    /// The machine with `value` in register `x`, at the next instruction.
    pub open spec fn loaded(self, x: u8, value: u8) -> Machine {
        Machine { v: self.v.update(x as int, value), ..self }.advanced()
    }

    /// The machine with `value` in register `x` and then `flag` in the flag
    /// register, at the next instruction. The flag is written last, so it
    /// wins where `x` is the flag register itself.
    pub open spec fn flagged(self, x: u8, value: u8, flag: bool) -> Machine {
        Machine {
            v: self.v.update(x as int, value).update(FLAG as int, flag_byte(flag)),
            ..self
        }.advanced()
    }

    /// Whether the key whose number is the low digit of `value` is down.
    pub open spec fn key_down(self, value: u8) -> bool {
        self.keys[(value % 16) as int]
    }

    /// The machine after a return from a subroutine.
    pub open spec fn returned(self) -> Result<Machine, Chip8Error> {
        match popped(self.stack) {
            Ok((top, rest)) => Ok(Machine { stack: rest, pc: top, ..self }),
            Err(e) => Err(e),
        }
    }

    /// The machine after a call of the subroutine at `addr`: the address of
    /// the next instruction is pushed.
    pub open spec fn called(self, addr: u16) -> Result<Machine, Chip8Error> {
        match pushed(self.stack, (self.pc + 2) as u16) {
            Ok(stack) => Ok(Machine { stack, pc: addr, ..self }),
            Err(e) => Err(e),
        }
    }

    /// The machine after the `n` rows at the index register were drawn at
    /// the position held by registers `x` and `y`; the flag register gets
    /// the collision. The rows are read as every run of bytes is: sixteen
    /// bytes must lie between the index register and the end of memory,
    /// however few rows are drawn.
    pub open spec fn sprite_drawn(self, x: u8, y: u8, n: u8) -> Result<Machine, Chip8Error> {
        match read_span(self.memory, self.i as int, n as nat) {
            Ok(rows) => Ok(
                Machine {
                    screen: drawn(self.screen, self.v[x as int] as int, self.v[y as int] as int, rows),
                    v: self.v.update(
                        FLAG as int,
                        flag_byte(
                            collides(
                                self.screen,
                                self.v[x as int] as int,
                                self.v[y as int] as int,
                                rows,
                            ),
                        ),
                    ),
                    ..self
                }.advanced(),
            ),
            Err(e) => Err(e),
        }
    }

    /// The machine after the decimal digits of register `x` were stored at
    /// the index register.
    pub open spec fn digits_stored(self, x: u8) -> Result<Machine, Chip8Error> {
        match bcd_written(self.memory, self.i as int, self.v[x as int]) {
            Ok(memory) => Ok(Machine { memory, ..self }.advanced()),
            Err(e) => Err(e),
        }
    }

    /// The machine after registers 0 to `x` were stored at the index
    /// register, register 0 at the lowest address.
    pub open spec fn registers_stored(self, x: u8) -> Result<Machine, Chip8Error> {
        if span_inside(self.memory.len(), self.i as int, (x + 1) as nat) {
            Ok(
                Machine {
                    memory: overwrite(self.memory, self.i as int, self.v.subrange(0, x + 1)),
                    ..self
                }.advanced(),
            )
        } else {
            Err(Chip8Error::OutOfBounds)
        }
    }

    /// The machine after registers 0 to `x` were loaded from the index
    /// register, register 0 from the lowest address. Sixteen bytes must lie
    /// between the index register and the end of memory, however few
    /// registers are loaded.
    pub open spec fn registers_loaded(self, x: u8) -> Result<Machine, Chip8Error> {
        match read_span(self.memory, self.i as int, (x + 1) as nat) {
            Ok(bytes) => Ok(
                Machine {
                    v: bytes + self.v.subrange(x + 1, REGISTERS as int),
                    ..self
                }.advanced(),
            ),
            Err(e) => Err(e),
        }
    }

    /// The machine after one of the instructions on two registers.
    pub open spec fn computed(self, instruction: Instruction) -> Machine {
        match instruction {
            Instruction::LdReg { x, y } => self.loaded(x, self.v[y as int]),
            Instruction::Or { x, y } => self.loaded(x, self.v[x as int] | self.v[y as int]),
            Instruction::And { x, y } => self.loaded(x, self.v[x as int] & self.v[y as int]),
            Instruction::Xor { x, y } => self.loaded(x, self.v[x as int] ^ self.v[y as int]),
            Instruction::AddReg { x, y } => self.flagged(
                x,
                ((self.v[x as int] + self.v[y as int]) % 256) as u8,
                self.v[x as int] + self.v[y as int] > 255,
            ),
            Instruction::Sub { x, y } => self.flagged(
                x,
                ((self.v[x as int] - self.v[y as int]) % 256) as u8,
                self.v[x as int] >= self.v[y as int],
            ),
            Instruction::Shr { x, y } => self.flagged(
                x,
                self.v[x as int] / 2,
                self.v[x as int] % 2 == 1,
            ),
            Instruction::Subn { x, y } => self.flagged(
                x,
                ((self.v[y as int] - self.v[x as int]) % 256) as u8,
                self.v[y as int] >= self.v[x as int],
            ),
            Instruction::Shl { x, y } => self.flagged(
                x,
                ((self.v[x as int] * 2) % 256) as u8,
                self.v[x as int] >= 128,
            ),
            _ => self,
        }
    }

    /// The machine after `instruction` was executed, or the error that the
    /// instruction ends in. `random` is the byte that the random instruction
    /// draws.
    pub open spec fn executed(self, instruction: Instruction, random: u8) -> Result<
        Machine,
        Chip8Error,
    > {
        match instruction {
            Instruction::Sys { addr } => Ok(self.advanced()),
            Instruction::Cls => Ok(Machine { screen: blank(), ..self }.advanced()),
            Instruction::Ret => self.returned(),
            Instruction::Jp { addr } => Ok(self.jumped(addr as int)),
            Instruction::Call { addr } => self.called(addr),
            Instruction::SeByte { x, kk } => Ok(self.skipped(self.v[x as int] == kk)),
            Instruction::SneByte { x, kk } => Ok(self.skipped(self.v[x as int] != kk)),
            Instruction::SeReg { x, y } => Ok(self.skipped(self.v[x as int] == self.v[y as int])),
            Instruction::LdByte { x, kk } => Ok(self.loaded(x, kk)),
            Instruction::AddByte { x, kk } => Ok(
                self.loaded(x, ((self.v[x as int] + kk) % 256) as u8),
            ),
            Instruction::LdReg { .. }
            | Instruction::Or { .. }
            | Instruction::And { .. }
            | Instruction::Xor { .. }
            | Instruction::AddReg { .. }
            | Instruction::Sub { .. }
            | Instruction::Shr { .. }
            | Instruction::Subn { .. }
            | Instruction::Shl { .. } => Ok(self.computed(instruction)),
            Instruction::SneReg { x, y } => Ok(self.skipped(self.v[x as int] != self.v[y as int])),
            Instruction::LdI { addr } => Ok(Machine { i: addr, ..self }.advanced()),
            Instruction::JpV0 { addr } => Ok(self.jumped(addr + self.v[0])),
            Instruction::Rnd { x, kk } => Ok(self.loaded(x, random & kk)),
            Instruction::Drw { x, y, n } => self.sprite_drawn(x, y, n),
            Instruction::Skp { x } => Ok(self.skipped(self.key_down(self.v[x as int]))),
            Instruction::Sknp { x } => Ok(self.skipped(!self.key_down(self.v[x as int]))),
            Instruction::LdFromDelay { x } => Ok(self.loaded(x, self.delay)),
            Instruction::LdKey { x } => Ok(Machine { waiting: Some(x), ..self }),
            Instruction::LdDelay { x } => Ok(
                Machine { delay: self.v[x as int], ..self }.advanced(),
            ),
            Instruction::LdSound { x } => Ok(
                Machine { sound: self.v[x as int], ..self }.advanced(),
            ),
            Instruction::AddI { x } => Ok(
                Machine { i: ((self.i + self.v[x as int]) % 0x10000) as u16, ..self }.advanced(),
            ),
            Instruction::LdFont { x } => Ok(
                Machine { i: glyph_address(self.v[x as int]), ..self }.advanced(),
            ),
            Instruction::Bcd { x } => self.digits_stored(x),
            Instruction::Store { x } => self.registers_stored(x),
            Instruction::Load { x } => self.registers_loaded(x),
        }
    }

    /// The machine one cycle later: the word at the program counter is
    /// fetched and decoded, and the instruction is executed. A machine that
    /// is halted for a key stays as it is. A cycle fails if the word lies
    /// outside memory, if it is no instruction, or if the instruction fails.
    pub open spec fn stepped(self, random: u8) -> Result<Machine, Chip8Error> {
        if self.waiting is Some {
            Ok(self)
        } else {
            match self.fetched() {
                Ok(opcode) => match decoded(opcode) {
                    Ok(instruction) => self.executed(instruction, random),
                    Err(e) => Err(e),
                },
                Err(e) => Err(e),
            }
        }
    }
}

impl Machine {
    /// The machine after one cycle for each byte of `randoms`, which the
    /// cycles get as their random bytes, the first cycle the first. The
    /// first cycle that fails ends the run.
    pub open spec fn ran(self, randoms: Seq<u8>) -> Result<Machine, Chip8Error>
        decreases randoms.len(),
    {
        if randoms.len() == 0 {
            Ok(self)
        } else {
            match self.ran(randoms.drop_last()) {
                Ok(machine) => machine.stepped(randoms.last()),
                Err(e) => Err(e),
            }
        }
    }
}

/// Which instruction a cycle executes depends on the two bytes at the
/// program counter and on nothing else: two machines that hold the same two
/// bytes there fetch the same word and decode it alike, whatever else their
/// states hold.
pub proof fn dispatch_depends_on_the_word_alone(a: Machine, b: Machine)
    requires
        a.wf(),
        b.wf(),
        a.pc + 1 < MEMORY_SIZE,
        b.pc + 1 < MEMORY_SIZE,
        a.memory[a.pc as int] == b.memory[b.pc as int],
        a.memory[a.pc + 1] == b.memory[b.pc + 1],
    ensures
        a.fetched() is Ok,
        a.fetched() == b.fetched(),
        decoded(a.fetched()->Ok_0) == decoded(b.fetched()->Ok_0),
{
}

/// A fetch fails exactly if the word at the program counter does not lie
/// inside memory with both of its bytes.
pub proof fn fetch_fails_outside_memory(machine: Machine)
    requires
        machine.wf(),
    ensures
        machine.fetched() is Ok <==> machine.pc + 1 < MEMORY_SIZE,
        machine.fetched() is Err ==> machine.fetched() == Err::<u16, Chip8Error>(
            Chip8Error::OutOfBounds,
        ),
{
}

/// Whether `instruction` sets the program counter itself, or holds it.
pub open spec fn sets_program_counter(instruction: Instruction) -> bool {
    instruction is Ret || instruction is Jp || instruction is Call || instruction is JpV0
        || instruction is LdKey
}

/// Whether `instruction` is one of those that may skip the instruction that
/// follows.
pub open spec fn may_skip(instruction: Instruction) -> bool {
    instruction is SeByte || instruction is SneByte || instruction is SeReg
        || instruction is SneReg || instruction is Skp || instruction is Sknp
}

/// An instruction that succeeds leaves the program counter at the next
/// instruction, unless it sets the program counter itself: a skip leaves it
/// at the next instruction or at the one behind it, a jump at its target, a
/// call at its target with the address of the next instruction on top of
/// the stack, a return at the address that was on top of the stack, and a
/// wait for a key where it was.
pub proof fn program_counter_moves(machine: Machine, instruction: Instruction, random: u8)
    requires
        machine.wf(),
        machine.pc + 2 <= MEMORY_SIZE,
        machine.executed(instruction, random) is Ok,
    ensures
        ({
            let after = machine.executed(instruction, random)->Ok_0;
            &&& !sets_program_counter(instruction) && !may_skip(instruction) ==> after.pc
                == machine.pc + 2
            &&& may_skip(instruction) ==> after.pc == machine.pc + 2 || after.pc == machine.pc + 4
            &&& instruction matches Instruction::Jp { addr } ==> after.pc == addr
            &&& instruction matches Instruction::JpV0 { addr } ==> after.pc == (addr
                + machine.v[0]) as u16
            &&& instruction matches Instruction::Call { addr } ==> after.pc == addr
                && after.stack == machine.stack.push((machine.pc + 2) as u16)
            &&& instruction is Ret ==> after.pc == machine.stack.last() && after.stack
                == machine.stack.drop_last()
            &&& instruction matches Instruction::LdKey { x } ==> after.pc == machine.pc
                && after.waiting == Some(x)
        }),
{
}

/// The instructions that compute with a flag write the flag last and
/// whatever the flag register held: after each of them the flag register
/// holds 1 or 0, also where it was itself the target or an operand.
pub proof fn arithmetic_overwrites_the_flag(machine: Machine, instruction: Instruction)
    requires
        machine.wf(),
        operands_fit(instruction),
        instruction is AddReg || instruction is Sub || instruction is Shr || instruction is Subn
            || instruction is Shl,
    ensures
        ({
            let after = machine.computed(instruction);
            &&& instruction matches Instruction::AddReg { x, y } ==> after.v[FLAG as int]
                == flag_byte(machine.v[x as int] + machine.v[y as int] > 255)
            &&& instruction matches Instruction::Sub { x, y } ==> after.v[FLAG as int] == flag_byte(
                machine.v[x as int] >= machine.v[y as int],
            )
            &&& instruction matches Instruction::Subn { x, y } ==> after.v[FLAG as int]
                == flag_byte(machine.v[y as int] >= machine.v[x as int])
            &&& instruction matches Instruction::Shr { x, y } ==> after.v[FLAG as int] == flag_byte(
                machine.v[x as int] % 2 == 1,
            )
            &&& instruction matches Instruction::Shl { x, y } ==> after.v[FLAG as int] == flag_byte(
                machine.v[x as int] >= 128,
            )
            &&& after.v[FLAG as int] <= 1
        }),
{
}

/// The instructions that read or write a run of memory keep the machine
/// well-formed.
proof fn memory_instructions_keep_well_formed(machine: Machine, x: u8, y: u8, n: u8)
    requires
        machine.wf(),
        machine.waiting is None,
        machine.pc + 2 <= MEMORY_SIZE,
        x < REGISTERS,
        y < REGISTERS,
    ensures
        machine.sprite_drawn(x, y, n) matches Ok(after) ==> after.wf(),
        machine.digits_stored(x) matches Ok(after) ==> after.wf(),
        machine.registers_stored(x) matches Ok(after) ==> after.wf(),
        machine.registers_loaded(x) matches Ok(after) ==> after.wf(),
{
    if machine.sprite_drawn(x, y, n) is Ok {
        let rows = read_span(machine.memory, machine.i as int, n as nat)->Ok_0;
        drawn_keeps_size(
            machine.screen,
            machine.v[x as int] as int,
            machine.v[y as int] as int,
            rows,
        );
    }
}

/// The instructions on two registers keep the machine well-formed.
proof fn computing_keeps_well_formed(machine: Machine, instruction: Instruction)
    requires
        machine.wf(),
        machine.waiting is None,
        machine.pc + 2 <= MEMORY_SIZE,
        operands_fit(instruction),
    ensures
        machine.computed(instruction).wf(),
{
}

/// An instruction whose operands fit keeps the machine well-formed.
pub proof fn execution_keeps_the_machine_well_formed(
    machine: Machine,
    instruction: Instruction,
    random: u8,
)
    requires
        machine.wf(),
        machine.waiting is None,
        machine.pc + 2 <= MEMORY_SIZE,
        operands_fit(instruction),
        machine.executed(instruction, random) is Ok,
    ensures
        machine.executed(instruction, random)->Ok_0.wf(),
{
    match instruction {
        Instruction::Drw { x, y, n } => {
            memory_instructions_keep_well_formed(machine, x, y, n);
        },
        Instruction::Bcd { x } | Instruction::Store { x } | Instruction::Load { x } => {
            memory_instructions_keep_well_formed(machine, x, 0, 0);
        },
        Instruction::LdReg { .. }
        | Instruction::Or { .. }
        | Instruction::And { .. }
        | Instruction::Xor { .. }
        | Instruction::AddReg { .. }
        | Instruction::Sub { .. }
        | Instruction::Shr { .. }
        | Instruction::Subn { .. }
        | Instruction::Shl { .. } => {
            computing_keeps_well_formed(machine, instruction);
        },
        _ => {},
    }
}

/// A cycle that succeeds keeps the machine well-formed, and so does every
/// run of cycles.
pub proof fn cycles_keep_the_machine_well_formed(machine: Machine, randoms: Seq<u8>)
    requires
        machine.wf(),
        machine.ran(randoms) is Ok,
    ensures
        machine.ran(randoms)->Ok_0.wf(),
    decreases randoms.len(),
{
    if randoms.len() > 0 {
        cycles_keep_the_machine_well_formed(machine, randoms.drop_last());
        let before = machine.ran(randoms.drop_last())->Ok_0;
        if before.waiting is None {
            let opcode = before.fetched()->Ok_0;
            decoded_word_is_encoded(opcode);
            execution_keeps_the_machine_well_formed(before, decoded(opcode)->Ok_0, randoms.last());
        }
    }
}

/// A failure is final: whether a cycle fails, and how, does not depend on
/// the random byte. As a failed cycle leaves the machine as it was, every
/// further cycle fails in the same way.
pub proof fn failure_is_final(machine: Machine, random: u8, other: u8)
    requires
        machine.wf(),
        machine.stepped(random) is Err,
    ensures
        machine.stepped(other) == machine.stepped(random),
{
}

/// Only the random instruction looks at the random byte: a cycle that
/// executes any other instruction comes to the same with every random byte.
pub proof fn random_byte_is_for_the_random_instruction(machine: Machine, random: u8, other: u8)
    requires
        machine.wf(),
        machine.waiting is None,
        machine.fetched() matches Ok(opcode) && decoded(opcode) matches Ok(instruction)
            && !(instruction is Rnd),
    ensures
        machine.stepped(other) == machine.stepped(random),
{
}

/// The program that clears the screen, loads 5 into register 0 and jumps
/// back to its start.
pub open spec fn clear_load_jump() -> Seq<u8> {
    seq![0x00u8, 0xE0u8, 0x60u8, 0x05u8, 0x12u8, 0x00u8]
}

/// What holds of a machine that has run `cycles` cycles of `clear_load_jump`
/// from the state `booted`: it stands at the instruction that is next in
/// the loop of three; the screen is dark after the first cycle and register
/// 0 holds 5 after the second; nothing else has changed.
pub open spec fn loops_after(booted: Machine, cycles: nat, machine: Machine) -> bool {
    &&& machine.pc == PROGRAM_START + 2 * (cycles % 3)
    &&& machine.memory == booted.memory
    &&& machine.stack == booted.stack
    &&& machine.i == booted.i
    &&& machine.delay == booted.delay
    &&& machine.sound == booted.sound
    &&& machine.keys == booted.keys
    &&& machine.waiting is None
    &&& machine.screen == if cycles >= 1 {
        blank()
    } else {
        booted.screen
    }
    &&& machine.v == if cycles >= 2 {
        booted.v.update(0, 5u8)
    } else {
        booted.v
    }
}

/// The program `clear_load_jump` runs for ever: loaded into any machine, it
/// never fails, whatever the random bytes. After
/// any number of cycles from the second on register 0 holds 5, and the
/// program counter is back at the start of the program after every third
/// cycle.
pub proof fn clear_load_jump_runs_for_ever(start: Machine, randoms: Seq<u8>)
    requires
        start.wf(),
    ensures
        start.with_rom(clear_load_jump()) is Ok,
        start.with_rom(clear_load_jump())->Ok_0.ran(randoms) is Ok,
        loops_after(
            start.with_rom(clear_load_jump())->Ok_0,
            randoms.len(),
            start.with_rom(clear_load_jump())->Ok_0.ran(randoms)->Ok_0,
        ),
        randoms.len() >= 2 ==> start.with_rom(clear_load_jump())->Ok_0.ran(randoms)->Ok_0.v[0] == 5,
        randoms.len() % 3 == 0 ==> start.with_rom(clear_load_jump())->Ok_0.ran(randoms)->Ok_0.pc
            == PROGRAM_START,
    decreases randoms.len(),
{
    let booted = start.with_rom(clear_load_jump())->Ok_0;
    if randoms.len() > 0 {
        clear_load_jump_runs_for_ever(start, randoms.drop_last());
        let before = booted.ran(randoms.drop_last())->Ok_0;
        let cycles = (randoms.len() - 1) as nat;
        assert(before.memory[0x200] == 0x00u8 && before.memory[0x201] == 0xE0u8);
        assert(before.memory[0x202] == 0x60u8 && before.memory[0x203] == 0x05u8);
        assert(before.memory[0x204] == 0x12u8 && before.memory[0x205] == 0x00u8);
        word_is_big_endian(0x00, 0xE0);
        word_is_big_endian(0x60, 0x05);
        word_is_big_endian(0x12, 0x00);
        encoded_word_is_decoded(Instruction::Cls);
        encoded_word_is_decoded(Instruction::LdByte { x: 0, kk: 5 });
        encoded_word_is_decoded(Instruction::Jp { addr: 0x200 });
        if cycles % 3 == 0 {
            assert(before.fetched() == Ok::<u16, Chip8Error>(0x00E0u16));
        } else if cycles % 3 == 1 {
            assert(before.fetched() == Ok::<u16, Chip8Error>(0x6005u16));
            assert(cycles >= 1);
        } else {
            assert(before.fetched() == Ok::<u16, Chip8Error>(0x1200u16));
            assert(cycles >= 2);
        }
        let after = before.stepped(randoms.last());
        assert(after is Ok);
        assert(after->Ok_0.v =~= if cycles + 1 >= 2 {
            booted.v.update(0, 5u8)
        } else {
            booted.v
        });
    }
}

} // verus!
