//! The instruction set: what each 16-bit instruction word means.
//!
//! An instruction word is read as four hexadecimal digits. The first digit,
//! and for some instructions the last one or two, select the instruction; the
//! others are its operands: `x` and `y` name registers, `n` is a 4-bit
//! number, `kk` a byte and `addr` a 12-bit address.

use vstd::prelude::*;
use vstd::arithmetic::div_mod::lemma_fundamental_div_mod_converse;
use crate::fault::Fault;

verus! {

/// A decoded instruction with its operands.
#[derive(Clone, Copy, Debug, PartialEq, Eq, Structural)]
pub enum Instruction {
    /// `00E0` CLS: clear the display.
    Cls,
    /// `00EE` RET: return from a subroutine.
    Ret,
    /// `1nnn` JP addr: jump to `addr`.
    Jp { addr: u16 },
    /// `2nnn` CALL addr: call the subroutine at `addr`.
    Call { addr: u16 },
    /// `3xkk` SE Vx, byte: skip the next instruction if `Vx == kk`.
    SeByte { x: u8, kk: u8 },
    /// `4xkk` SNE Vx, byte: skip the next instruction if `Vx != kk`.
    SneByte { x: u8, kk: u8 },
    /// `5xy0` SE Vx, Vy: skip the next instruction if `Vx == Vy`.
    SeReg { x: u8, y: u8 },
    /// `6xkk` LD Vx, byte: set `Vx` to `kk`.
    LdByte { x: u8, kk: u8 },
    /// `7xkk` ADD Vx, byte: add `kk` to `Vx`, wrapping, flag untouched.
    AddByte { x: u8, kk: u8 },
    /// `8xy0` LD Vx, Vy: set `Vx` to `Vy`.
    LdReg { x: u8, y: u8 },
    /// `8xy1` OR Vx, Vy: bitwise or into `Vx`.
    Or { x: u8, y: u8 },
    /// `8xy2` AND Vx, Vy: bitwise and into `Vx`.
    And { x: u8, y: u8 },
    /// `8xy3` XOR Vx, Vy: bitwise exclusive or into `Vx`.
    Xor { x: u8, y: u8 },
    /// `8xy4` ADD Vx, Vy: add `Vy` to `Vx`, wrapping; VF tells of a carry.
    AddReg { x: u8, y: u8 },
    /// `8xy5` SUB Vx, Vy: subtract `Vy` from `Vx`, wrapping; VF tells that
    /// there was no borrow.
    SubReg { x: u8, y: u8 },
    /// `8xy6` SHR Vx: shift `Vx` right by one; VF gets the bit shifted out.
    /// The `y` digit is carried along but plays no part.
    Shr { x: u8, y: u8 },
    /// `8xy7` SUBN Vx, Vy: set `Vx` to `Vy - Vx`, wrapping; VF tells that
    /// there was no borrow.
    Subn { x: u8, y: u8 },
    /// `8xyE` SHL Vx: shift `Vx` left by one; VF gets the bit shifted out.
    /// The `y` digit is carried along but plays no part.
    Shl { x: u8, y: u8 },
    /// `9xy0` SNE Vx, Vy: skip the next instruction if `Vx != Vy`.
    SneReg { x: u8, y: u8 },
    /// `Annn` LD I, addr: set the index register to `addr`.
    LdI { addr: u16 },
    /// `Bnnn` JP V0, addr: jump to `addr + V0`.
    JpV0 { addr: u16 },
    /// `Cxkk` RND Vx, byte: set `Vx` to a random byte masked with `kk`.
    Rnd { x: u8, kk: u8 },
    /// `Dxyn` DRW Vx, Vy, n: draw the `n`-row sprite at the index register
    /// at column `Vx`, row `Vy`; VF tells of a collision.
    Drw { x: u8, y: u8, n: u8 },
    /// `Ex9E` SKP Vx: skip the next instruction if key `Vx` is held down.
    Skp { x: u8 },
    /// `ExA1` SKNP Vx: skip the next instruction if key `Vx` is not held down.
    Sknp { x: u8 },
    /// `Fx07` LD Vx, DT: set `Vx` to the delay timer.
    LdVxDt { x: u8 },
    /// `Fx0A` LD Vx, K: wait for a key and store its code in `Vx`.
    LdVxK { x: u8 },
    /// `Fx15` LD DT, Vx: set the delay timer to `Vx`.
    LdDtVx { x: u8 },
    /// `Fx18` LD ST, Vx: set the sound timer to `Vx`.
    LdStVx { x: u8 },
    /// `Fx1E` ADD I, Vx: add `Vx` to the index register.
    AddI { x: u8 },
    /// `Fx29` LD F, Vx: point the index register at the font sprite of `Vx`.
    LdF { x: u8 },
    /// `Fx33` LD B, Vx: store the three decimal digits of `Vx` at the index
    /// register.
    LdB { x: u8 },
    /// `Fx55` LD [I], Vx: store `V0..=Vx` at the index register.
    StoreRegs { x: u8 },
    /// `Fx65` LD Vx, [I]: load `V0..=Vx` from the index register.
    LoadRegs { x: u8 },
}

/// The four hexadecimal digits of an instruction word, most significant
/// first.
pub open spec fn digits(op: u16) -> (u8, u8, u8, u8) {
    ((op / 0x1000) as u8, (op / 0x100 % 0x10) as u8, (op / 0x10 % 0x10) as u8, (op % 0x10) as u8)
}

/// The low byte of an instruction word: the operand `kk`.
pub open spec fn low_byte(op: u16) -> u8 {
    (op % 0x100) as u8
}

/// The low twelve bits of an instruction word: the operand `addr`.
pub open spec fn low_address(op: u16) -> u16 {
    op % 0x1000
}

/// The instruction that an instruction word stands for, if it stands for one.
pub open spec fn decoded(op: u16) -> Option<Instruction> {
    let (o1, x, y, n) = digits(op);
    let kk = low_byte(op);
    let addr = low_address(op);
    match (o1, x, y, n) {
        (0x0, 0x0, 0xE, 0x0) => Some(Instruction::Cls),
        (0x0, 0x0, 0xE, 0xE) => Some(Instruction::Ret),
        (0x1, _, _, _) => Some(Instruction::Jp { addr }),
        (0x2, _, _, _) => Some(Instruction::Call { addr }),
        (0x3, _, _, _) => Some(Instruction::SeByte { x, kk }),
        (0x4, _, _, _) => Some(Instruction::SneByte { x, kk }),
        (0x5, _, _, 0x0) => Some(Instruction::SeReg { x, y }),
        (0x6, _, _, _) => Some(Instruction::LdByte { x, kk }),
        (0x7, _, _, _) => Some(Instruction::AddByte { x, kk }),
        (0x8, _, _, 0x0) => Some(Instruction::LdReg { x, y }),
        (0x8, _, _, 0x1) => Some(Instruction::Or { x, y }),
        (0x8, _, _, 0x2) => Some(Instruction::And { x, y }),
        (0x8, _, _, 0x3) => Some(Instruction::Xor { x, y }),
        (0x8, _, _, 0x4) => Some(Instruction::AddReg { x, y }),
        (0x8, _, _, 0x5) => Some(Instruction::SubReg { x, y }),
        (0x8, _, _, 0x6) => Some(Instruction::Shr { x, y }),
        (0x8, _, _, 0x7) => Some(Instruction::Subn { x, y }),
        (0x8, _, _, 0xE) => Some(Instruction::Shl { x, y }),
        (0x9, _, _, 0x0) => Some(Instruction::SneReg { x, y }),
        (0xA, _, _, _) => Some(Instruction::LdI { addr }),
        (0xB, _, _, _) => Some(Instruction::JpV0 { addr }),
        (0xC, _, _, _) => Some(Instruction::Rnd { x, kk }),
        (0xD, _, _, _) => Some(Instruction::Drw { x, y, n }),
        (0xE, _, 0x9, 0xE) => Some(Instruction::Skp { x }),
        (0xE, _, 0xA, 0x1) => Some(Instruction::Sknp { x }),
        (0xF, _, 0x0, 0x7) => Some(Instruction::LdVxDt { x }),
        (0xF, _, 0x0, 0xA) => Some(Instruction::LdVxK { x }),
        (0xF, _, 0x1, 0x5) => Some(Instruction::LdDtVx { x }),
        (0xF, _, 0x1, 0x8) => Some(Instruction::LdStVx { x }),
        (0xF, _, 0x1, 0xE) => Some(Instruction::AddI { x }),
        (0xF, _, 0x2, 0x9) => Some(Instruction::LdF { x }),
        (0xF, _, 0x3, 0x3) => Some(Instruction::LdB { x }),
        (0xF, _, 0x5, 0x5) => Some(Instruction::StoreRegs { x }),
        (0xF, _, 0x6, 0x5) => Some(Instruction::LoadRegs { x }),
        _ => None,
    }
}

/// The word made of four hexadecimal digits.
pub open spec fn word(o1: int, o2: int, o3: int, o4: int) -> int {
    o1 * 0x1000 + o2 * 0x100 + o3 * 0x10 + o4
}

impl Instruction {
    /// The operands fit their fields: register numbers and `n` in four bits,
    /// addresses in twelve.
    pub open spec fn operands_fit(self) -> bool {
        match self {
            Instruction::Cls | Instruction::Ret => true,
            Instruction::Jp { addr }
            | Instruction::Call { addr }
            | Instruction::LdI { addr }
            | Instruction::JpV0 { addr } => addr < 0x1000,
            Instruction::SeByte { x, kk }
            | Instruction::SneByte { x, kk }
            | Instruction::LdByte { x, kk }
            | Instruction::AddByte { x, kk }
            | Instruction::Rnd { x, kk } => x < 0x10,
            Instruction::SeReg { x, y }
            | Instruction::LdReg { x, y }
            | Instruction::Or { x, y }
            | Instruction::And { x, y }
            | Instruction::Xor { x, y }
            | Instruction::AddReg { x, y }
            | Instruction::SubReg { x, y }
            | Instruction::Shr { x, y }
            | Instruction::Subn { x, y }
            | Instruction::Shl { x, y }
            | Instruction::SneReg { x, y } => x < 0x10 && y < 0x10,
            Instruction::Drw { x, y, n } => x < 0x10 && y < 0x10 && n < 0x10,
            Instruction::Skp { x }
            | Instruction::Sknp { x }
            | Instruction::LdVxDt { x }
            | Instruction::LdVxK { x }
            | Instruction::LdDtVx { x }
            | Instruction::LdStVx { x }
            | Instruction::AddI { x }
            | Instruction::LdF { x }
            | Instruction::LdB { x }
            | Instruction::StoreRegs { x }
            | Instruction::LoadRegs { x } => x < 0x10,
        }
    }

    /// The instruction word that stands for this instruction.
    pub open spec fn encoded(self) -> int {
        match self {
            Instruction::Cls => 0x00E0,
            Instruction::Ret => 0x00EE,
            Instruction::Jp { addr } => 0x1000 + addr,
            Instruction::Call { addr } => 0x2000 + addr,
            Instruction::SeByte { x, kk } => 0x3000 + x * 0x100 + kk,
            Instruction::SneByte { x, kk } => 0x4000 + x * 0x100 + kk,
            Instruction::SeReg { x, y } => word(0x5, x as int, y as int, 0x0),
            Instruction::LdByte { x, kk } => 0x6000 + x * 0x100 + kk,
            Instruction::AddByte { x, kk } => 0x7000 + x * 0x100 + kk,
            Instruction::LdReg { x, y } => word(0x8, x as int, y as int, 0x0),
            Instruction::Or { x, y } => word(0x8, x as int, y as int, 0x1),
            Instruction::And { x, y } => word(0x8, x as int, y as int, 0x2),
            Instruction::Xor { x, y } => word(0x8, x as int, y as int, 0x3),
            Instruction::AddReg { x, y } => word(0x8, x as int, y as int, 0x4),
            Instruction::SubReg { x, y } => word(0x8, x as int, y as int, 0x5),
            Instruction::Shr { x, y } => word(0x8, x as int, y as int, 0x6),
            Instruction::Subn { x, y } => word(0x8, x as int, y as int, 0x7),
            Instruction::Shl { x, y } => word(0x8, x as int, y as int, 0xE),
            Instruction::SneReg { x, y } => word(0x9, x as int, y as int, 0x0),
            Instruction::LdI { addr } => 0xA000 + addr,
            Instruction::JpV0 { addr } => 0xB000 + addr,
            Instruction::Rnd { x, kk } => 0xC000 + x * 0x100 + kk,
            Instruction::Drw { x, y, n } => word(0xD, x as int, y as int, n as int),
            Instruction::Skp { x } => word(0xE, x as int, 0x9, 0xE),
            Instruction::Sknp { x } => word(0xE, x as int, 0xA, 0x1),
            Instruction::LdVxDt { x } => word(0xF, x as int, 0x0, 0x7),
            Instruction::LdVxK { x } => word(0xF, x as int, 0x0, 0xA),
            Instruction::LdDtVx { x } => word(0xF, x as int, 0x1, 0x5),
            Instruction::LdStVx { x } => word(0xF, x as int, 0x1, 0x8),
            Instruction::AddI { x } => word(0xF, x as int, 0x1, 0xE),
            Instruction::LdF { x } => word(0xF, x as int, 0x2, 0x9),
            Instruction::LdB { x } => word(0xF, x as int, 0x3, 0x3),
            Instruction::StoreRegs { x } => word(0xF, x as int, 0x5, 0x5),
            Instruction::LoadRegs { x } => word(0xF, x as int, 0x6, 0x5),
        }
    }
}

/// An instruction word is made of its digits, and its operands `kk` and
/// `addr` of the low ones.
proof fn lemma_digits(op: u16)
    ensures
        ({
            let (o1, o2, o3, o4) = digits(op);
            &&& o1 < 0x10 && o2 < 0x10 && o3 < 0x10 && o4 < 0x10
            &&& op == word(o1 as int, o2 as int, o3 as int, o4 as int)
            &&& low_byte(op) == o3 * 0x10 + o4
            &&& low_address(op) == o2 * 0x100 + o3 * 0x10 + o4
        }),
{
    assert(op == (op / 0x1000) * 0x1000 + (op / 0x100 % 0x10) * 0x100 + (op / 0x10 % 0x10) * 0x10
        + op % 0x10) by (bit_vector);
    assert(op % 0x100 == (op / 0x10 % 0x10) * 0x10 + op % 0x10) by (bit_vector);
    assert(op % 0x1000 == (op / 0x100 % 0x10) * 0x100 + (op / 0x10 % 0x10) * 0x10 + op % 0x10)
        by (bit_vector);
    assert(op / 0x1000 < 0x10) by (bit_vector);
}

/// The digits of a word made of four digits are those four.
proof fn lemma_word_digits(o1: int, o2: int, o3: int, o4: int)
    requires
        0 <= o1 < 0x10,
        0 <= o2 < 0x10,
        0 <= o3 < 0x10,
        0 <= o4 < 0x10,
    ensures
        0 <= word(o1, o2, o3, o4) <= u16::MAX,
        digits(word(o1, o2, o3, o4) as u16) == (o1 as u8, o2 as u8, o3 as u8, o4 as u8),
        low_byte(word(o1, o2, o3, o4) as u16) == o3 * 0x10 + o4,
        low_address(word(o1, o2, o3, o4) as u16) == o2 * 0x100 + o3 * 0x10 + o4,
{
    let w = word(o1, o2, o3, o4);
    lemma_fundamental_div_mod_converse(w, 0x1000, o1, o2 * 0x100 + o3 * 0x10 + o4);
    lemma_fundamental_div_mod_converse(w, 0x100, o1 * 0x10 + o2, o3 * 0x10 + o4);
    lemma_fundamental_div_mod_converse(w, 0x10, o1 * 0x100 + o2 * 0x10 + o3, o4);
    lemma_fundamental_div_mod_converse(o1 * 0x10 + o2, 0x10, o1, o2);
    lemma_fundamental_div_mod_converse(o1 * 0x100 + o2 * 0x10 + o3, 0x10, o1 * 0x10 + o2, o3);
}

/// An instruction word that decodes at all is the encoding of the
/// instruction it decodes to, and that instruction's operands fit their
/// fields: decoding loses nothing of the word.
pub proof fn lemma_decoded_encodes_back(op: u16)
    ensures
        decoded(op) matches Some(ins) ==> ins.operands_fit() && ins.encoded() == op,
{
    lemma_digits(op);
}

/// Decoding the encoding of an instruction gives that instruction back, so
/// no instruction word stands for two instructions: the patterns of the
/// instruction set do not overlap.
pub proof fn lemma_encoded_decodes_back(ins: Instruction)
    requires
        ins.operands_fit(),
    ensures
        0 <= ins.encoded() <= u16::MAX,
        decoded(ins.encoded() as u16) == Some(ins),
{
    let e = ins.encoded();
    match ins {
        Instruction::Cls => {
            lemma_word_digits(0x0, 0x0, 0xE, 0x0);
        },
        Instruction::Ret => {
            lemma_word_digits(0x0, 0x0, 0xE, 0xE);
        },
        Instruction::Jp { addr }
        | Instruction::Call { addr }
        | Instruction::LdI { addr }
        | Instruction::JpV0 { addr } => {
            lemma_word_digits(
                e / 0x1000,
                addr as int / 0x100,
                addr as int / 0x10 % 0x10,
                addr as int % 0x10,
            );
        },
        Instruction::SeByte { x, kk }
        | Instruction::SneByte { x, kk }
        | Instruction::LdByte { x, kk }
        | Instruction::AddByte { x, kk }
        | Instruction::Rnd { x, kk } => {
            lemma_word_digits(e / 0x1000, x as int, kk as int / 0x10, kk as int % 0x10);
        },
        Instruction::SeReg { x, y }
        | Instruction::LdReg { x, y }
        | Instruction::Or { x, y }
        | Instruction::And { x, y }
        | Instruction::Xor { x, y }
        | Instruction::AddReg { x, y }
        | Instruction::SubReg { x, y }
        | Instruction::Shr { x, y }
        | Instruction::Subn { x, y }
        | Instruction::Shl { x, y }
        | Instruction::SneReg { x, y } => {
            lemma_word_digits(e / 0x1000, x as int, y as int, e % 0x10);
        },
        Instruction::Drw { x, y, n } => {
            lemma_word_digits(0xD, x as int, y as int, n as int);
        },
        Instruction::Skp { x }
        | Instruction::Sknp { x }
        | Instruction::LdVxDt { x }
        | Instruction::LdVxK { x }
        | Instruction::LdDtVx { x }
        | Instruction::LdStVx { x }
        | Instruction::AddI { x }
        | Instruction::LdF { x }
        | Instruction::LdB { x }
        | Instruction::StoreRegs { x }
        | Instruction::LoadRegs { x } => {
            lemma_word_digits(e / 0x1000, x as int, e / 0x10 % 0x10, e % 0x10);
        },
    }
}

/// Two instructions with the same encoding are the same instruction.
pub proof fn lemma_encoding_is_injective(a: Instruction, b: Instruction)
    requires
        a.operands_fit(),
        b.operands_fit(),
        a.encoded() == b.encoded(),
    ensures
        a == b,
{
    lemma_encoded_decodes_back(a);
    lemma_encoded_decodes_back(b);
}

/// Splits an instruction word into its four hexadecimal digits.
fn split(op: u16) -> (d: (u8, u8, u8, u8))
    ensures
        d == digits(op),
{
    let o1: u16 = (op & 0xF000) >> 12;
    let o2: u16 = (op & 0x0F00) >> 8;
    let o3: u16 = (op & 0x00F0) >> 4;
    let o4: u16 = op & 0x000F;
    assert(o1 == op / 0x1000) by (bit_vector)
        requires
            o1 == (op & 0xF000) >> 12,
    ;
    assert(o2 == op / 0x100 % 0x10) by (bit_vector)
        requires
            o2 == (op & 0x0F00) >> 8,
    ;
    assert(o3 == op / 0x10 % 0x10) by (bit_vector)
        requires
            o3 == (op & 0x00F0) >> 4,
    ;
    assert(o4 == op % 0x10) by (bit_vector)
        requires
            o4 == op & 0x000F,
    ;
    (o1 as u8, o2 as u8, o3 as u8, o4 as u8)
}

/// Decodes an instruction word, or reports it as unsupported.
pub fn decode(op: u16) -> (res: Result<Instruction, Fault>)
    ensures
        res == (match decoded(op) {
            Some(ins) => Ok::<Instruction, Fault>(ins),
            None => Err(Fault::UnsupportedOpcode { opcode: op }),
        }),
        res matches Ok(ins) ==> ins.operands_fit(),
{
    proof {
        lemma_decoded_encodes_back(op);
    }
    let (o1, x, y, n) = split(op);
    let low: u16 = op & 0x00FF;
    let addr: u16 = op & 0x0FFF;
    assert(low == op % 0x100) by (bit_vector)
        requires
            low == op & 0x00FF,
    ;
    assert(addr == op % 0x1000) by (bit_vector)
        requires
            addr == op & 0x0FFF,
    ;
    let kk: u8 = low as u8;
    match (o1, x, y, n) {
        (0x0, 0x0, 0xE, 0x0) => Ok(Instruction::Cls),
        (0x0, 0x0, 0xE, 0xE) => Ok(Instruction::Ret),
        (0x1, _, _, _) => Ok(Instruction::Jp { addr }),
        (0x2, _, _, _) => Ok(Instruction::Call { addr }),
        (0x3, _, _, _) => Ok(Instruction::SeByte { x, kk }),
        (0x4, _, _, _) => Ok(Instruction::SneByte { x, kk }),
        (0x5, _, _, 0x0) => Ok(Instruction::SeReg { x, y }),
        (0x6, _, _, _) => Ok(Instruction::LdByte { x, kk }),
        (0x7, _, _, _) => Ok(Instruction::AddByte { x, kk }),
        (0x8, _, _, 0x0) => Ok(Instruction::LdReg { x, y }),
        (0x8, _, _, 0x1) => Ok(Instruction::Or { x, y }),
        (0x8, _, _, 0x2) => Ok(Instruction::And { x, y }),
        (0x8, _, _, 0x3) => Ok(Instruction::Xor { x, y }),
        (0x8, _, _, 0x4) => Ok(Instruction::AddReg { x, y }),
        (0x8, _, _, 0x5) => Ok(Instruction::SubReg { x, y }),
        (0x8, _, _, 0x6) => Ok(Instruction::Shr { x, y }),
        (0x8, _, _, 0x7) => Ok(Instruction::Subn { x, y }),
        (0x8, _, _, 0xE) => Ok(Instruction::Shl { x, y }),
        (0x9, _, _, 0x0) => Ok(Instruction::SneReg { x, y }),
        (0xA, _, _, _) => Ok(Instruction::LdI { addr }),
        (0xB, _, _, _) => Ok(Instruction::JpV0 { addr }),
        (0xC, _, _, _) => Ok(Instruction::Rnd { x, kk }),
        (0xD, _, _, _) => Ok(Instruction::Drw { x, y, n }),
        (0xE, _, 0x9, 0xE) => Ok(Instruction::Skp { x }),
        (0xE, _, 0xA, 0x1) => Ok(Instruction::Sknp { x }),
        (0xF, _, 0x0, 0x7) => Ok(Instruction::LdVxDt { x }),
        (0xF, _, 0x0, 0xA) => Ok(Instruction::LdVxK { x }),
        (0xF, _, 0x1, 0x5) => Ok(Instruction::LdDtVx { x }),
        (0xF, _, 0x1, 0x8) => Ok(Instruction::LdStVx { x }),
        (0xF, _, 0x1, 0xE) => Ok(Instruction::AddI { x }),
        (0xF, _, 0x2, 0x9) => Ok(Instruction::LdF { x }),
        (0xF, _, 0x3, 0x3) => Ok(Instruction::LdB { x }),
        (0xF, _, 0x5, 0x5) => Ok(Instruction::StoreRegs { x }),
        (0xF, _, 0x6, 0x5) => Ok(Instruction::LoadRegs { x }),
        _ => Err(Fault::UnsupportedOpcode { opcode: op }),
    }
}

} // verus!
