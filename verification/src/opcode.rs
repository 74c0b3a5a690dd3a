//! The instructions of the machine and the decoding of a 16-bit word into
//! one of them.

use vstd::prelude::*;
use crate::error::Chip8Error;

verus! {

/// The fields that every instruction word is cut into. Which of them an
/// instruction uses depends on the instruction.
#[derive(Clone, Copy, Debug, PartialEq, Eq, Structural)]
pub struct Fields {
    /// The highest four bits: the family of the instruction.
    pub op: u8,
    /// The second four bits: mostly the number of a register.
    pub x: u8,
    /// The third four bits: mostly the number of a second register.
    pub y: u8,
    /// The lowest four bits.
    pub n: u8,
    /// The lowest eight bits.
    pub kk: u8,
    /// The lowest twelve bits: an address.
    pub addr: u16,
}

/// One instruction, with the operands that it uses. `x` and `y` are numbers
/// of registers, `kk` is a byte, `addr` an address and `n` a number of rows.
#[derive(Clone, Copy, Debug, PartialEq, Eq, Structural)]
pub enum Instruction {
    /// `0nnn`: a call of a machine code routine.
    Sys { addr: u16 },
    /// `00E0`: clear the screen.
    Cls,
    /// `00EE`: return from a subroutine.
    Ret,
    /// `1nnn`: jump to `addr`.
    Jp { addr: u16 },
    /// `2nnn`: call the subroutine at `addr`.
    Call { addr: u16 },
    /// `3xkk`: skip the next instruction if register `x` holds `kk`.
    SeByte { x: u8, kk: u8 },
    /// `4xkk`: skip the next instruction if register `x` does not hold `kk`.
    SneByte { x: u8, kk: u8 },
    /// `5xy0`: skip the next instruction if registers `x` and `y` are equal.
    SeReg { x: u8, y: u8 },
    /// `6xkk`: load `kk` into register `x`.
    LdByte { x: u8, kk: u8 },
    /// `7xkk`: add `kk` to register `x`; the flag is left alone.
    AddByte { x: u8, kk: u8 },
    /// `8xy0`: copy register `y` to register `x`.
    LdReg { x: u8, y: u8 },
    /// `8xy1`: register `x` becomes `x | y`.
    Or { x: u8, y: u8 },
    /// `8xy2`: register `x` becomes `x & y`.
    And { x: u8, y: u8 },
    /// `8xy3`: register `x` becomes `x ^ y`.
    Xor { x: u8, y: u8 },
    /// `8xy4`: register `x` becomes `x + y`; the flag is the carry.
    AddReg { x: u8, y: u8 },
    /// `8xy5`: register `x` becomes `x - y`; the flag is 1 if nothing was
    /// borrowed.
    Sub { x: u8, y: u8 },
    /// `8xy6`: register `x` is shifted right by one; the flag is the bit
    /// that fell out.
    Shr { x: u8, y: u8 },
    /// `8xy7`: register `x` becomes `y - x`; the flag is 1 if nothing was
    /// borrowed.
    Subn { x: u8, y: u8 },
    /// `8xyE`: register `x` is shifted left by one; the flag is the bit that
    /// fell out.
    Shl { x: u8, y: u8 },
    /// `9xy0`: skip the next instruction if registers `x` and `y` differ.
    SneReg { x: u8, y: u8 },
    /// `Annn`: load `addr` into the index register.
    LdI { addr: u16 },
    /// `Bnnn`: jump to `addr` plus register 0.
    JpV0 { addr: u16 },
    /// `Cxkk`: register `x` becomes a random byte masked by `kk`.
    Rnd { x: u8, kk: u8 },
    /// `Dxyn`: draw the `n` rows at the index register at the position held
    /// by registers `x` and `y`; the flag is the collision.
    Drw { x: u8, y: u8, n: u8 },
    /// `Ex9E`: skip the next instruction if the key in register `x` is down.
    Skp { x: u8 },
    /// `ExA1`: skip the next instruction if the key in register `x` is up.
    Sknp { x: u8 },
    /// `Fx07`: load the delay timer into register `x`.
    LdFromDelay { x: u8 },
    /// `Fx0A`: wait for a key to go down and load its number into register
    /// `x`.
    LdKey { x: u8 },
    /// `Fx15`: load register `x` into the delay timer.
    LdDelay { x: u8 },
    /// `Fx18`: load register `x` into the sound timer.
    LdSound { x: u8 },
    /// `Fx1E`: add register `x` to the index register.
    AddI { x: u8 },
    /// `Fx29`: load the address of the font sprite for the digit in register
    /// `x` into the index register.
    LdFont { x: u8 },
    /// `Fx33`: store the decimal digits of register `x` at the index
    /// register.
    Bcd { x: u8 },
    /// `Fx55`: store registers 0 to `x` at the index register.
    Store { x: u8 },
    /// `Fx65`: load registers 0 to `x` from the index register.
    Load { x: u8 },
}

/// The fields of the instruction word `opcode`.
pub open spec fn fields_of(opcode: u16) -> Fields {
    Fields {
        op: (opcode >> 12) as u8,
        x: ((opcode >> 8) & 0xF) as u8,
        y: ((opcode >> 4) & 0xF) as u8,
        n: (opcode & 0xF) as u8,
        kk: (opcode & 0xFF) as u8,
        addr: opcode & 0xFFF,
    }
}

/// The fields are the hexadecimal digits of the word: `op`, `x`, `y` and `n`
/// are its four digits from the highest down, `kk` is its low byte and `addr`
/// its lowest three digits.
pub proof fn fields_are_hex_digits(opcode: u16)
    ensures
        fields_of(opcode).op == opcode / 0x1000,
        fields_of(opcode).x == (opcode / 0x100) % 0x10,
        fields_of(opcode).y == (opcode / 0x10) % 0x10,
        fields_of(opcode).n == opcode % 0x10,
        fields_of(opcode).kk == opcode % 0x100,
        fields_of(opcode).addr == opcode % 0x1000,
        fields_of(opcode).op < 16,
        fields_of(opcode).x < 16,
        fields_of(opcode).y < 16,
        fields_of(opcode).n < 16,
        fields_of(opcode).addr < 0x1000,
{
    assert((opcode >> 12) == opcode / 0x1000 && (opcode >> 12) < 16) by (bit_vector);
    assert(((opcode >> 8) & 0xF) == (opcode / 0x100) % 0x10 && ((opcode >> 8) & 0xF) < 16)
        by (bit_vector);
    assert(((opcode >> 4) & 0xF) == (opcode / 0x10) % 0x10 && ((opcode >> 4) & 0xF) < 16)
        by (bit_vector);
    assert((opcode & 0xF) == opcode % 0x10 && (opcode & 0xF) < 16) by (bit_vector);
    assert((opcode & 0xFF) == opcode % 0x100 && (opcode & 0xFF) < 256) by (bit_vector);
    assert((opcode & 0xFFF) == opcode % 0x1000 && (opcode & 0xFFF) < 0x1000) by (bit_vector);
}

/// Cuts the instruction word `opcode` into its fields.
pub fn fields(opcode: u16) -> (f: Fields)
    ensures
        f == fields_of(opcode),
        f.op < 16 && f.x < 16 && f.y < 16 && f.n < 16 && f.addr < 0x1000,
{
    proof {
        fields_are_hex_digits(opcode);
    }
    Fields {
        op: (opcode >> 12) as u8,
        x: ((opcode >> 8) & 0xF) as u8,
        y: ((opcode >> 4) & 0xF) as u8,
        n: (opcode & 0xF) as u8,
        kk: (opcode & 0xFF) as u8,
        addr: opcode & 0xFFF,
    }
}

/// The instruction of the arithmetic family `8xyn`, which `n` selects.
pub open spec fn arithmetic_instruction(f: Fields) -> Result<Instruction, Chip8Error> {
    if f.n == 0x0 {
        Ok(Instruction::LdReg { x: f.x, y: f.y })
    } else if f.n == 0x1 {
        Ok(Instruction::Or { x: f.x, y: f.y })
    } else if f.n == 0x2 {
        Ok(Instruction::And { x: f.x, y: f.y })
    } else if f.n == 0x3 {
        Ok(Instruction::Xor { x: f.x, y: f.y })
    } else if f.n == 0x4 {
        Ok(Instruction::AddReg { x: f.x, y: f.y })
    } else if f.n == 0x5 {
        Ok(Instruction::Sub { x: f.x, y: f.y })
    } else if f.n == 0x6 {
        Ok(Instruction::Shr { x: f.x, y: f.y })
    } else if f.n == 0x7 {
        Ok(Instruction::Subn { x: f.x, y: f.y })
    } else if f.n == 0xE {
        Ok(Instruction::Shl { x: f.x, y: f.y })
    } else {
        Err(Chip8Error::IllegalOpcode)
    }
}

/// The instruction of the family `Fxkk`, which `kk` selects.
pub open spec fn register_instruction(f: Fields) -> Result<Instruction, Chip8Error> {
    if f.kk == 0x07 {
        Ok(Instruction::LdFromDelay { x: f.x })
    } else if f.kk == 0x0A {
        Ok(Instruction::LdKey { x: f.x })
    } else if f.kk == 0x15 {
        Ok(Instruction::LdDelay { x: f.x })
    } else if f.kk == 0x18 {
        Ok(Instruction::LdSound { x: f.x })
    } else if f.kk == 0x1E {
        Ok(Instruction::AddI { x: f.x })
    } else if f.kk == 0x29 {
        Ok(Instruction::LdFont { x: f.x })
    } else if f.kk == 0x33 {
        Ok(Instruction::Bcd { x: f.x })
    } else if f.kk == 0x55 {
        Ok(Instruction::Store { x: f.x })
    } else if f.kk == 0x65 {
        Ok(Instruction::Load { x: f.x })
    } else {
        Err(Chip8Error::IllegalOpcode)
    }
}

/// The instruction that the fields `f` of a word stand for, or
/// `IllegalOpcode` where they stand for none.
pub open spec fn instruction_of(f: Fields) -> Result<Instruction, Chip8Error> {
    if f.op == 0x0 {
        if f.addr == 0x0E0 {
            Ok(Instruction::Cls)
        } else if f.addr == 0x0EE {
            Ok(Instruction::Ret)
        } else {
            Ok(Instruction::Sys { addr: f.addr })
        }
    } else if f.op == 0x1 {
        Ok(Instruction::Jp { addr: f.addr })
    } else if f.op == 0x2 {
        Ok(Instruction::Call { addr: f.addr })
    } else if f.op == 0x3 {
        Ok(Instruction::SeByte { x: f.x, kk: f.kk })
    } else if f.op == 0x4 {
        Ok(Instruction::SneByte { x: f.x, kk: f.kk })
    } else if f.op == 0x5 {
        if f.n == 0 {
            Ok(Instruction::SeReg { x: f.x, y: f.y })
        } else {
            Err(Chip8Error::IllegalOpcode)
        }
    } else if f.op == 0x6 {
        Ok(Instruction::LdByte { x: f.x, kk: f.kk })
    } else if f.op == 0x7 {
        Ok(Instruction::AddByte { x: f.x, kk: f.kk })
    } else if f.op == 0x8 {
        arithmetic_instruction(f)
    } else if f.op == 0x9 {
        if f.n == 0 {
            Ok(Instruction::SneReg { x: f.x, y: f.y })
        } else {
            Err(Chip8Error::IllegalOpcode)
        }
    } else if f.op == 0xA {
        Ok(Instruction::LdI { addr: f.addr })
    } else if f.op == 0xB {
        Ok(Instruction::JpV0 { addr: f.addr })
    } else if f.op == 0xC {
        Ok(Instruction::Rnd { x: f.x, kk: f.kk })
    } else if f.op == 0xD {
        Ok(Instruction::Drw { x: f.x, y: f.y, n: f.n })
    } else if f.op == 0xE {
        if f.kk == 0x9E {
            Ok(Instruction::Skp { x: f.x })
        } else if f.kk == 0xA1 {
            Ok(Instruction::Sknp { x: f.x })
        } else {
            Err(Chip8Error::IllegalOpcode)
        }
    } else if f.op == 0xF {
        register_instruction(f)
    } else {
        Err(Chip8Error::IllegalOpcode)
    }
}

/// The instruction that the word `opcode` stands for. It depends on the bits
/// of the word and on nothing else.
pub open spec fn decoded(opcode: u16) -> Result<Instruction, Chip8Error> {
    instruction_of(fields_of(opcode))
}

/// The instruction word made of the bytes `hi` and `lo`, the high one first.
pub open spec fn word_of(hi: u8, lo: u8) -> u16 {
    ((hi as u16) << 8) | (lo as u16)
}

/// The word made of two bytes is 256 times the first plus the second.
pub proof fn word_is_big_endian(hi: u8, lo: u8)
    ensures
        word_of(hi, lo) == hi * 256 + lo,
{
    assert((((hi as u16) << 8) | (lo as u16)) == hi * 256 + lo) by (bit_vector);
}

/// Joins two bytes to an instruction word, the high byte first.
pub fn word(hi: u8, lo: u8) -> (opcode: u16)
    ensures
        opcode == word_of(hi, lo),
{
    ((hi as u16) << 8) | (lo as u16)
}

/// Decodes the instruction word `opcode`, or fails with `IllegalOpcode` on a
/// word that is no instruction.
pub fn decode(opcode: u16) -> (res: Result<Instruction, Chip8Error>)
    ensures
        res == decoded(opcode),
        res matches Err(e) ==> e == Chip8Error::IllegalOpcode,
{
    let f: Fields = fields(opcode);
    if f.op == 0x0 {
        if f.addr == 0x0E0 {
            Ok(Instruction::Cls)
        } else if f.addr == 0x0EE {
            Ok(Instruction::Ret)
        } else {
            Ok(Instruction::Sys { addr: f.addr })
        }
    } else if f.op == 0x1 {
        Ok(Instruction::Jp { addr: f.addr })
    } else if f.op == 0x2 {
        Ok(Instruction::Call { addr: f.addr })
    } else if f.op == 0x3 {
        Ok(Instruction::SeByte { x: f.x, kk: f.kk })
    } else if f.op == 0x4 {
        Ok(Instruction::SneByte { x: f.x, kk: f.kk })
    } else if f.op == 0x5 {
        if f.n == 0 {
            Ok(Instruction::SeReg { x: f.x, y: f.y })
        } else {
            Err(Chip8Error::IllegalOpcode)
        }
    } else if f.op == 0x6 {
        Ok(Instruction::LdByte { x: f.x, kk: f.kk })
    } else if f.op == 0x7 {
        Ok(Instruction::AddByte { x: f.x, kk: f.kk })
    } else if f.op == 0x8 {
        decode_arithmetic(f)
    } else if f.op == 0x9 {
        if f.n == 0 {
            Ok(Instruction::SneReg { x: f.x, y: f.y })
        } else {
            Err(Chip8Error::IllegalOpcode)
        }
    } else if f.op == 0xA {
        Ok(Instruction::LdI { addr: f.addr })
    } else if f.op == 0xB {
        Ok(Instruction::JpV0 { addr: f.addr })
    } else if f.op == 0xC {
        Ok(Instruction::Rnd { x: f.x, kk: f.kk })
    } else if f.op == 0xD {
        Ok(Instruction::Drw { x: f.x, y: f.y, n: f.n })
    } else if f.op == 0xE {
        if f.kk == 0x9E {
            Ok(Instruction::Skp { x: f.x })
        } else if f.kk == 0xA1 {
            Ok(Instruction::Sknp { x: f.x })
        } else {
            Err(Chip8Error::IllegalOpcode)
        }
    } else {
        decode_register(f)
    }
}

/// Decodes an instruction of the family `8xyn`.
fn decode_arithmetic(f: Fields) -> (res: Result<Instruction, Chip8Error>)
    ensures
        res == arithmetic_instruction(f),
{
    if f.n == 0x0 {
        Ok(Instruction::LdReg { x: f.x, y: f.y })
    } else if f.n == 0x1 {
        Ok(Instruction::Or { x: f.x, y: f.y })
    } else if f.n == 0x2 {
        Ok(Instruction::And { x: f.x, y: f.y })
    } else if f.n == 0x3 {
        Ok(Instruction::Xor { x: f.x, y: f.y })
    } else if f.n == 0x4 {
        Ok(Instruction::AddReg { x: f.x, y: f.y })
    } else if f.n == 0x5 {
        Ok(Instruction::Sub { x: f.x, y: f.y })
    } else if f.n == 0x6 {
        Ok(Instruction::Shr { x: f.x, y: f.y })
    } else if f.n == 0x7 {
        Ok(Instruction::Subn { x: f.x, y: f.y })
    } else if f.n == 0xE {
        Ok(Instruction::Shl { x: f.x, y: f.y })
    } else {
        Err(Chip8Error::IllegalOpcode)
    }
}

/// Decodes an instruction of the family `Fxkk`.
fn decode_register(f: Fields) -> (res: Result<Instruction, Chip8Error>)
    ensures
        res == register_instruction(f),
{
    if f.kk == 0x07 {
        Ok(Instruction::LdFromDelay { x: f.x })
    } else if f.kk == 0x0A {
        Ok(Instruction::LdKey { x: f.x })
    } else if f.kk == 0x15 {
        Ok(Instruction::LdDelay { x: f.x })
    } else if f.kk == 0x18 {
        Ok(Instruction::LdSound { x: f.x })
    } else if f.kk == 0x1E {
        Ok(Instruction::AddI { x: f.x })
    } else if f.kk == 0x29 {
        Ok(Instruction::LdFont { x: f.x })
    } else if f.kk == 0x33 {
        Ok(Instruction::Bcd { x: f.x })
    } else if f.kk == 0x55 {
        Ok(Instruction::Store { x: f.x })
    } else if f.kk == 0x65 {
        Ok(Instruction::Load { x: f.x })
    } else {
        Err(Chip8Error::IllegalOpcode)
    }
}

/// The word of the family `family` with the register numbers `x` and `y` in
/// its second and third digit and `n` in its last.
pub open spec fn word_xyn(family: int, x: u8, y: u8, n: int) -> int {
    family * 0x1000 + x * 0x100 + y * 0x10 + n
}

/// The word of the family `family` with the register number `x` in its
/// second digit and `kk` as its low byte.
pub open spec fn word_xkk(family: int, x: u8, kk: int) -> int {
    family * 0x1000 + x * 0x100 + kk
}

/// The word of the family `family` with the address `addr` in its lowest
/// three digits.
pub open spec fn word_addr(family: int, addr: u16) -> int {
    family * 0x1000 + addr
}

/// The instruction word that stands for `instruction`, after the table of
/// instructions.
pub open spec fn encoded(instruction: Instruction) -> int {
    match instruction {
        Instruction::Sys { addr } => word_addr(0x0, addr),
        Instruction::Cls => word_addr(0x0, 0x0E0),
        Instruction::Ret => word_addr(0x0, 0x0EE),
        Instruction::Jp { addr } => word_addr(0x1, addr),
        Instruction::Call { addr } => word_addr(0x2, addr),
        Instruction::SeByte { x, kk } => word_xkk(0x3, x, kk as int),
        Instruction::SneByte { x, kk } => word_xkk(0x4, x, kk as int),
        Instruction::SeReg { x, y } => word_xyn(0x5, x, y, 0x0),
        Instruction::LdByte { x, kk } => word_xkk(0x6, x, kk as int),
        Instruction::AddByte { x, kk } => word_xkk(0x7, x, kk as int),
        Instruction::LdReg { x, y } => word_xyn(0x8, x, y, 0x0),
        Instruction::Or { x, y } => word_xyn(0x8, x, y, 0x1),
        Instruction::And { x, y } => word_xyn(0x8, x, y, 0x2),
        Instruction::Xor { x, y } => word_xyn(0x8, x, y, 0x3),
        Instruction::AddReg { x, y } => word_xyn(0x8, x, y, 0x4),
        Instruction::Sub { x, y } => word_xyn(0x8, x, y, 0x5),
        Instruction::Shr { x, y } => word_xyn(0x8, x, y, 0x6),
        Instruction::Subn { x, y } => word_xyn(0x8, x, y, 0x7),
        Instruction::Shl { x, y } => word_xyn(0x8, x, y, 0xE),
        Instruction::SneReg { x, y } => word_xyn(0x9, x, y, 0x0),
        Instruction::LdI { addr } => word_addr(0xA, addr),
        Instruction::JpV0 { addr } => word_addr(0xB, addr),
        Instruction::Rnd { x, kk } => word_xkk(0xC, x, kk as int),
        Instruction::Drw { x, y, n } => word_xyn(0xD, x, y, n as int),
        Instruction::Skp { x } => word_xkk(0xE, x, 0x9E),
        Instruction::Sknp { x } => word_xkk(0xE, x, 0xA1),
        Instruction::LdFromDelay { x } => word_xkk(0xF, x, 0x07),
        Instruction::LdKey { x } => word_xkk(0xF, x, 0x0A),
        Instruction::LdDelay { x } => word_xkk(0xF, x, 0x15),
        Instruction::LdSound { x } => word_xkk(0xF, x, 0x18),
        Instruction::AddI { x } => word_xkk(0xF, x, 0x1E),
        Instruction::LdFont { x } => word_xkk(0xF, x, 0x29),
        Instruction::Bcd { x } => word_xkk(0xF, x, 0x33),
        Instruction::Store { x } => word_xkk(0xF, x, 0x55),
        Instruction::Load { x } => word_xkk(0xF, x, 0x65),
    }
}

/// Whether the operands of `instruction` fit the digits that the instruction
/// word has for them. A `Sys` to one of the two addresses that stand for
/// `Cls` and `Ret` is not an instruction of its own.
pub open spec fn operands_fit(instruction: Instruction) -> bool {
    match instruction {
        Instruction::Sys { addr } => addr < 0x1000 && addr != 0x0E0 && addr != 0x0EE,
        Instruction::Cls | Instruction::Ret => true,
        Instruction::Jp { addr }
        | Instruction::Call { addr }
        | Instruction::LdI { addr }
        | Instruction::JpV0 { addr } => addr < 0x1000,
        Instruction::SeByte { x, kk }
        | Instruction::SneByte { x, kk }
        | Instruction::LdByte { x, kk }
        | Instruction::AddByte { x, kk }
        | Instruction::Rnd { x, kk } => x < 16,
        Instruction::SeReg { x, y }
        | Instruction::LdReg { x, y }
        | Instruction::Or { x, y }
        | Instruction::And { x, y }
        | Instruction::Xor { x, y }
        | Instruction::AddReg { x, y }
        | Instruction::Sub { x, y }
        | Instruction::Shr { x, y }
        | Instruction::Subn { x, y }
        | Instruction::Shl { x, y }
        | Instruction::SneReg { x, y } => x < 16 && y < 16,
        Instruction::Drw { x, y, n } => x < 16 && y < 16 && n < 16,
        Instruction::Skp { x }
        | Instruction::Sknp { x }
        | Instruction::LdFromDelay { x }
        | Instruction::LdKey { x }
        | Instruction::LdDelay { x }
        | Instruction::LdSound { x }
        | Instruction::AddI { x }
        | Instruction::LdFont { x }
        | Instruction::Bcd { x }
        | Instruction::Store { x }
        | Instruction::Load { x } => x < 16,
    }
}

/// A word is the sum of its four hexadecimal digits, each times its place.
proof fn word_is_sum_of_digits(opcode: u16)
    ensures
        opcode == word_xyn(
            fields_of(opcode).op as int,
            fields_of(opcode).x,
            fields_of(opcode).y,
            fields_of(opcode).n as int,
        ),
        opcode == word_xkk(
            fields_of(opcode).op as int,
            fields_of(opcode).x,
            fields_of(opcode).kk as int,
        ),
        opcode == word_addr(fields_of(opcode).op as int, fields_of(opcode).addr),
{
    fields_are_hex_digits(opcode);
}

/// The fields of the word made of the four hexadecimal digits `a`, `b`, `c`
/// and `d`.
spec fn fields_from_digits(a: int, b: int, c: int, d: int) -> Fields {
    Fields {
        op: a as u8,
        x: b as u8,
        y: c as u8,
        n: d as u8,
        kk: (c * 0x10 + d) as u8,
        addr: (b * 0x100 + c * 0x10 + d) as u16,
    }
}

/// The digits that a word was made of are the fields that it is cut into.
proof fn word_has_its_digits(a: u16, b: u16, c: u16, d: u16)
    requires
        a < 16,
        b < 16,
        c < 16,
        d < 16,
    ensures
        fields_of((a * 0x1000 + b * 0x100 + c * 0x10 + d) as u16) == fields_from_digits(
            a as int,
            b as int,
            c as int,
            d as int,
        ),
{
    let w: u16 = (a * 0x1000 + b * 0x100 + c * 0x10 + d) as u16;
    assert((w >> 12) == a && (w >> 8) & 0xF == b && (w >> 4) & 0xF == c && w & 0xF == d && w & 0xFF
        == c * 0x10 + d && w & 0xFFF == b * 0x100 + c * 0x10 + d) by (bit_vector)
        requires
            a < 16 && b < 16 && c < 16 && d < 16,
            w == (a * 0x1000 + b * 0x100 + c * 0x10 + d) as u16,
    ;
}

/// The words of each of the three shapes are cut into the fields that they
/// were made of.
proof fn shaped_words_have_their_fields()
    ensures
        forall|family: int, x: u8, y: u8, n: int|
            0 <= family < 16 && x < 16 && y < 16 && 0 <= n < 16 ==> {
                let f = fields_of(#[trigger] word_xyn(family, x, y, n) as u16);
                &&& 0 <= word_xyn(family, x, y, n) <= u16::MAX
                &&& f.op == family && f.x == x && f.y == y && f.n == n
            },
        forall|family: int, x: u8, kk: int|
            0 <= family < 16 && x < 16 && 0 <= kk < 256 ==> {
                let f = fields_of(#[trigger] word_xkk(family, x, kk) as u16);
                &&& 0 <= word_xkk(family, x, kk) <= u16::MAX
                &&& f.op == family && f.x == x && f.kk == kk
            },
        forall|family: int, addr: u16|
            0 <= family < 16 && addr < 0x1000 ==> {
                let f = fields_of(#[trigger] word_addr(family, addr) as u16);
                &&& 0 <= word_addr(family, addr) <= u16::MAX
                &&& f.op == family && f.addr == addr
            },
{
    assert forall|family: int, x: u8, y: u8, n: int|
        0 <= family < 16 && x < 16 && y < 16 && 0 <= n < 16 implies {
        let f = fields_of(#[trigger] word_xyn(family, x, y, n) as u16);
        &&& 0 <= word_xyn(family, x, y, n) <= u16::MAX
        &&& f.op == family && f.x == x && f.y == y && f.n == n
    } by {
        word_has_its_digits(family as u16, x as u16, y as u16, n as u16);
    }
    assert forall|family: int, x: u8, kk: int| 0 <= family < 16 && x < 16 && 0 <= kk < 256 implies {
        let f = fields_of(#[trigger] word_xkk(family, x, kk) as u16);
        &&& 0 <= word_xkk(family, x, kk) <= u16::MAX
        &&& f.op == family && f.x == x && f.kk == kk
    } by {
        word_has_its_digits(family as u16, x as u16, (kk / 0x10) as u16, (kk % 0x10) as u16);
    }
    assert forall|family: int, addr: u16| 0 <= family < 16 && addr < 0x1000 implies {
        let f = fields_of(#[trigger] word_addr(family, addr) as u16);
        &&& 0 <= word_addr(family, addr) <= u16::MAX
        &&& f.op == family && f.addr == addr
    } by {
        word_has_its_digits(
            family as u16,
            (addr / 0x100) as u16,
            ((addr / 0x10) % 0x10) as u16,
            (addr % 0x10) as u16,
        );
    }
}

/// Decoding loses nothing: a word that decodes to an instruction is the word
/// that stands for this instruction, and the operands of the instruction fit.
pub proof fn decoded_word_is_encoded(opcode: u16)
    ensures
        decoded(opcode) matches Ok(instruction) ==> encoded(instruction) == opcode && operands_fit(
            instruction,
        ),
{
    fields_are_hex_digits(opcode);
    word_is_sum_of_digits(opcode);
}

/// Decoding finds every instruction: the word that stands for an instruction
/// whose operands fit decodes to this instruction.
pub proof fn encoded_word_is_decoded(instruction: Instruction)
    requires
        operands_fit(instruction),
    ensures
        0 <= encoded(instruction) <= u16::MAX,
        decoded(encoded(instruction) as u16) == Ok::<Instruction, Chip8Error>(instruction),
{
    shaped_words_have_their_fields();
}

} // verus!
