//! The closed instruction set: its 16-bit encoding and its assembly text.

use vstd::prelude::*;
use vstd::string::*;
use crate::error::ChipoError;
use crate::text::{decimal_text, hex_text, push_decimal, push_hex};

verus! {

/// A memory address; twelve bits are encoded.
pub type Addr = u32;

/// A register index; four bits are encoded.
pub type Vx = usize;

/// An immediate byte.
pub type Val = u8;

#[derive(Debug, Clone, Copy, PartialEq, Eq, Structural)]
pub enum Instruction {
    /// A data word that is no operation.
    Raw(u16),
    /// The legacy call of a machine-code routine; never decoded, never run.
    CallPrg(Addr),
    DisplayClear,
    Return,
    GoTo(Addr),
    Call(Addr),
    IfEq(Vx, Val),
    IfEqRg(Vx, Vx),
    IfNeq(Vx, Val),
    IfNeqRg(Vx, Vx),
    /// Load an immediate byte into a register.
    SetVal(Vx, Val),
    SetRg(Vx, Vx),
    Add(Vx, Val),
    AddRg(Vx, Vx),
    Or(Vx, Vx),
    And(Vx, Vx),
    Xor(Vx, Vx),
    Sub(Vx, Vx),
    /// Reverse subtraction: the first register receives second minus first.
    SubSelf(Vx, Vx),
    RightShift(Vx),
    LeftShift(Vx),
    SetAddr(Addr),
    /// Jump to the address plus register zero.
    Jump(Addr),
    Rand(Vx, Val),
    Disp(Vx, Vx, Val),
    KeyOpEq(Vx),
    KeyOpNeq(Vx),
    GetTimer(Vx),
    SetTimer(Vx),
    SetSoundTimer(Vx),
    GetKeyOp(Vx),
    AddToI(Vx),
    FontLoad(Vx),
    BCD(Vx),
    MemDump(Vx),
    MemLoad(Vx),
}

/// The low twelve bits of a word: its address operand.
pub open spec fn addr_of(w: u16) -> Addr {
    (w % 0x1000) as Addr
}

/// The low byte of a word: its immediate operand.
pub open spec fn val_of(w: u16) -> Val {
    (w % 0x100) as Val
}

/// The lowest nibble of a word.
pub open spec fn small_val_of(w: u16) -> Val {
    (w % 0x10) as Val
}

/// The second nibble of a word: its first register.
pub open spec fn vx_of(w: u16) -> Vx {
    ((w / 0x100) % 0x10) as Vx
}

/// The third nibble of a word: its second register.
pub open spec fn vy_of(w: u16) -> Vx {
    ((w / 0x10) % 0x10) as Vx
}

pub fn as_addr(instr: u16) -> (addr: Addr)
    ensures
        addr == addr_of(instr),
{
    assert(instr & 0x0FFF == instr % 0x1000) by (bit_vector);
    (instr & 0x0FFF) as Addr
}

pub fn as_val(instr: u16) -> (val: Val)
    ensures
        val == val_of(instr),
{
    assert(instr & 0x00FF == instr % 0x100) by (bit_vector);
    (instr & 0x00FF) as Val
}

pub fn as_small_val(instr: u16) -> (val: Val)
    ensures
        val == small_val_of(instr),
{
    assert(instr & 0x000F == instr % 0x10) by (bit_vector);
    (instr & 0x000F) as Val
}

pub fn as_vx(instr: u16) -> (vx: Vx)
    ensures
        vx == vx_of(instr),
{
    assert((instr & 0x0F00) >> 8 == (instr / 0x100) % 0x10) by (bit_vector);
    ((instr & 0x0F00) >> 8) as Vx
}

pub fn as_vy(instr: u16) -> (vy: Vx)
    ensures
        vy == vy_of(instr),
{
    assert((instr & 0x00F0) >> 4 == (instr / 0x10) % 0x10) by (bit_vector);
    ((instr & 0x00F0) >> 4) as Vx
}


impl Instruction {
    /// The instruction that a word stands for, if any. The first nibble
    /// selects the family; families 8, E and F are told apart by the last
    /// nibble or the low byte.
    pub open spec fn decode(w: u16) -> Option<Instruction> {
        let family = w / 0x1000;
        let x = vx_of(w);
        let y = vy_of(w);
        let kk = val_of(w);
        let nnn = addr_of(w);
        let last = small_val_of(w);
        if family == 0x0 {
            if kk == 0xE0 {
                Some(Instruction::DisplayClear)
            } else if kk == 0xEE {
                Some(Instruction::Return)
            } else {
                Some(Instruction::Raw(w))
            }
        } else if family == 0x1 {
            Some(Instruction::GoTo(nnn))
        } else if family == 0x2 {
            Some(Instruction::Call(nnn))
        } else if family == 0x3 {
            Some(Instruction::IfEq(x, kk))
        } else if family == 0x4 {
            Some(Instruction::IfNeq(x, kk))
        } else if family == 0x5 {
            Some(Instruction::IfEqRg(x, y))
        } else if family == 0x6 {
            Some(Instruction::SetVal(x, kk))
        } else if family == 0x7 {
            Some(Instruction::Add(x, kk))
        } else if family == 0x8 {
            if last == 0x0 {
                Some(Instruction::SetRg(x, y))
            } else if last == 0x1 {
                Some(Instruction::Or(x, y))
            } else if last == 0x2 {
                Some(Instruction::And(x, y))
            } else if last == 0x3 {
                Some(Instruction::Xor(x, y))
            } else if last == 0x4 {
                Some(Instruction::AddRg(x, y))
            } else if last == 0x5 {
                Some(Instruction::Sub(x, y))
            } else if last == 0x6 {
                Some(Instruction::RightShift(x))
            } else if last == 0x7 {
                Some(Instruction::SubSelf(x, y))
            } else if last == 0xE {
                Some(Instruction::LeftShift(x))
            } else {
                None
            }
        } else if family == 0x9 {
            Some(Instruction::IfNeqRg(x, y))
        } else if family == 0xA {
            Some(Instruction::SetAddr(nnn))
        } else if family == 0xB {
            Some(Instruction::Jump(nnn))
        } else if family == 0xC {
            Some(Instruction::Rand(x, kk))
        } else if family == 0xD {
            Some(Instruction::Disp(x, y, last))
        } else if family == 0xE {
            if kk == 0x9E {
                Some(Instruction::KeyOpEq(x))
            } else if kk == 0xA1 {
                Some(Instruction::KeyOpNeq(x))
            } else {
                None
            }
        } else {
            if kk == 0x07 {
                Some(Instruction::GetTimer(x))
            } else if kk == 0x0A {
                Some(Instruction::GetKeyOp(x))
            } else if kk == 0x15 {
                Some(Instruction::SetTimer(x))
            } else if kk == 0x18 {
                Some(Instruction::SetSoundTimer(x))
            } else if kk == 0x1E {
                Some(Instruction::AddToI(x))
            } else if kk == 0x29 {
                Some(Instruction::FontLoad(x))
            } else if kk == 0x33 {
                Some(Instruction::BCD(x))
            } else if kk == 0x55 {
                Some(Instruction::MemDump(x))
            } else if kk == 0x65 {
                Some(Instruction::MemLoad(x))
            } else {
                None
            }
        }
    }

    /// Decodes a word. A word that stands for no instruction is returned in
    /// the error.
    pub fn from(instr: u16) -> (res: Result<Self, ChipoError>)
        ensures
            res == match Self::decode(instr) {
                Some(i) => Ok::<Instruction, ChipoError>(i),
                None => Err(ChipoError::UnknownOpCodeErr(instr)),
            },
    {
        assert(instr & 0xF000 == (instr / 0x1000) * 0x1000) by (bit_vector);
        assert(instr & 0x00FF == instr % 0x100) by (bit_vector);
        assert(instr & 0x000F == instr % 0x10) by (bit_vector);
        match instr & 0xF000 {
            0x0000 => Ok(
                match instr & 0x00FF {
                    0x00E0 => Instruction::DisplayClear,
                    0x00EE => Instruction::Return,
                    _ => Instruction::Raw(instr),
                },
            ),
            0x1000 => Ok(Instruction::GoTo(as_addr(instr))),
            0x2000 => Ok(Instruction::Call(as_addr(instr))),
            0x3000 => Ok(Instruction::IfEq(as_vx(instr), as_val(instr))),
            0x4000 => Ok(Instruction::IfNeq(as_vx(instr), as_val(instr))),
            0x5000 => Ok(Instruction::IfEqRg(as_vx(instr), as_vy(instr))),
            0x6000 => Ok(Instruction::SetVal(as_vx(instr), as_val(instr))),
            0x7000 => Ok(Instruction::Add(as_vx(instr), as_val(instr))),
            0x8000 => match instr & 0x000F {
                0 => Ok(Instruction::SetRg(as_vx(instr), as_vy(instr))),
                1 => Ok(Instruction::Or(as_vx(instr), as_vy(instr))),
                2 => Ok(Instruction::And(as_vx(instr), as_vy(instr))),
                3 => Ok(Instruction::Xor(as_vx(instr), as_vy(instr))),
                4 => Ok(Instruction::AddRg(as_vx(instr), as_vy(instr))),
                5 => Ok(Instruction::Sub(as_vx(instr), as_vy(instr))),
                6 => Ok(Instruction::RightShift(as_vx(instr))),
                7 => Ok(Instruction::SubSelf(as_vx(instr), as_vy(instr))),
                0xE => Ok(Instruction::LeftShift(as_vx(instr))),
                _ => Err(ChipoError::UnknownOpCodeErr(instr)),
            },
            0x9000 => Ok(Instruction::IfNeqRg(as_vx(instr), as_vy(instr))),
            0xA000 => Ok(Instruction::SetAddr(as_addr(instr))),
            0xB000 => Ok(Instruction::Jump(as_addr(instr))),
            0xC000 => Ok(Instruction::Rand(as_vx(instr), as_val(instr))),
            0xD000 => Ok(Instruction::Disp(as_vx(instr), as_vy(instr), as_small_val(instr))),
            0xE000 => match instr & 0x00FF {
                0x9E => Ok(Instruction::KeyOpEq(as_vx(instr))),
                0xA1 => Ok(Instruction::KeyOpNeq(as_vx(instr))),
                _ => Err(ChipoError::UnknownOpCodeErr(instr)),
            },
            0xF000 => match instr & 0x00FF {
                0x07 => Ok(Instruction::GetTimer(as_vx(instr))),
                0x0A => Ok(Instruction::GetKeyOp(as_vx(instr))),
                0x15 => Ok(Instruction::SetTimer(as_vx(instr))),
                0x18 => Ok(Instruction::SetSoundTimer(as_vx(instr))),
                0x1E => Ok(Instruction::AddToI(as_vx(instr))),
                0x29 => Ok(Instruction::FontLoad(as_vx(instr))),
                0x33 => Ok(Instruction::BCD(as_vx(instr))),
                0x55 => Ok(Instruction::MemDump(as_vx(instr))),
                0x65 => Ok(Instruction::MemLoad(as_vx(instr))),
                _ => Err(ChipoError::UnknownOpCodeErr(instr)),
            },
            _ => Err(ChipoError::UnknownOpCodeErr(instr)),
        }
    }

    /// Every register index of the instruction is below sixteen.
    pub open spec fn registers_in_range(self) -> bool {
        match self {
            Instruction::Raw(_)
            | Instruction::DisplayClear
            | Instruction::Return
            | Instruction::CallPrg(_)
            | Instruction::GoTo(_)
            | Instruction::Call(_)
            | Instruction::SetAddr(_)
            | Instruction::Jump(_) => true,
            Instruction::IfEq(x, _)
            | Instruction::IfNeq(x, _)
            | Instruction::SetVal(x, _)
            | Instruction::Add(x, _)
            | Instruction::Rand(x, _) => x < 16,
            Instruction::IfEqRg(x, y)
            | Instruction::IfNeqRg(x, y)
            | Instruction::SetRg(x, y)
            | Instruction::AddRg(x, y)
            | Instruction::Or(x, y)
            | Instruction::And(x, y)
            | Instruction::Xor(x, y)
            | Instruction::Sub(x, y)
            | Instruction::SubSelf(x, y)
            | Instruction::Disp(x, y, _) => x < 16 && y < 16,
            Instruction::RightShift(x)
            | Instruction::LeftShift(x)
            | Instruction::KeyOpEq(x)
            | Instruction::KeyOpNeq(x)
            | Instruction::GetTimer(x)
            | Instruction::SetTimer(x)
            | Instruction::SetSoundTimer(x)
            | Instruction::GetKeyOp(x)
            | Instruction::AddToI(x)
            | Instruction::FontLoad(x)
            | Instruction::BCD(x)
            | Instruction::MemDump(x)
            | Instruction::MemLoad(x) => x < 16,
        }
    }

    /// Whether every register index of the instruction is below sixteen.
    pub fn valid_registers(&self) -> (valid: bool)
        ensures
            valid == self.registers_in_range(),
    {
        match *self {
            Instruction::Raw(_)
            | Instruction::DisplayClear
            | Instruction::Return
            | Instruction::CallPrg(_)
            | Instruction::GoTo(_)
            | Instruction::Call(_)
            | Instruction::SetAddr(_)
            | Instruction::Jump(_) => true,
            Instruction::IfEq(x, _)
            | Instruction::IfNeq(x, _)
            | Instruction::SetVal(x, _)
            | Instruction::Add(x, _)
            | Instruction::Rand(x, _) => x < 16,
            Instruction::IfEqRg(x, y)
            | Instruction::IfNeqRg(x, y)
            | Instruction::SetRg(x, y)
            | Instruction::AddRg(x, y)
            | Instruction::Or(x, y)
            | Instruction::And(x, y)
            | Instruction::Xor(x, y)
            | Instruction::Sub(x, y)
            | Instruction::SubSelf(x, y)
            | Instruction::Disp(x, y, _) => x < 16 && y < 16,
            Instruction::RightShift(x)
            | Instruction::LeftShift(x)
            | Instruction::KeyOpEq(x)
            | Instruction::KeyOpNeq(x)
            | Instruction::GetTimer(x)
            | Instruction::SetTimer(x)
            | Instruction::SetSoundTimer(x)
            | Instruction::GetKeyOp(x)
            | Instruction::AddToI(x)
            | Instruction::FontLoad(x)
            | Instruction::BCD(x)
            | Instruction::MemDump(x)
            | Instruction::MemLoad(x) => x < 16,
        }
    }

    /// The operands fit their fields: every register index is below
    /// sixteen, every address below 0x1000 and the sprite height below
    /// sixteen.
    pub open spec fn operands_in_range(self) -> bool {
        &&& self.registers_in_range()
        &&& match self {
            Instruction::CallPrg(a)
            | Instruction::GoTo(a)
            | Instruction::Call(a)
            | Instruction::SetAddr(a)
            | Instruction::Jump(a) => a < 0x1000,
            Instruction::Disp(_, _, n) => n < 16,
            _ => true,
        }
    }

    /// The instructions that decoding can produce: operands in range, a data
    /// word only where the word is in family 0 and is neither `cls` nor
    /// `ret`, and never the legacy machine-code call.
    pub open spec fn decodable(self) -> bool {
        &&& self.operands_in_range()
        &&& match self {
            Instruction::Raw(w) => w < 0x1000 && w % 0x100 != 0xE0 && w % 0x100 != 0xEE,
            Instruction::CallPrg(_) => false,
            _ => true,
        }
    }

    /// The word of an instruction: the family in the first nibble, then the
    /// operands, each reduced to the width of its field.
    pub open spec fn encode(self) -> u16 {
        match self {
            Instruction::Raw(w) => w,
            Instruction::CallPrg(a) => word_addr(0x0, a),
            Instruction::DisplayClear => 0x00E0,
            Instruction::Return => 0x00EE,
            Instruction::GoTo(a) => word_addr(0x1, a),
            Instruction::Call(a) => word_addr(0x2, a),
            Instruction::IfEq(x, kk) => word_val(0x3, x, kk),
            Instruction::IfNeq(x, kk) => word_val(0x4, x, kk),
            Instruction::IfEqRg(x, y) => word_regs(0x5, x, y, 0x0),
            Instruction::SetVal(x, kk) => word_val(0x6, x, kk),
            Instruction::Add(x, kk) => word_val(0x7, x, kk),
            Instruction::SetRg(x, y) => word_regs(0x8, x, y, 0x0),
            Instruction::Or(x, y) => word_regs(0x8, x, y, 0x1),
            Instruction::And(x, y) => word_regs(0x8, x, y, 0x2),
            Instruction::Xor(x, y) => word_regs(0x8, x, y, 0x3),
            Instruction::AddRg(x, y) => word_regs(0x8, x, y, 0x4),
            Instruction::Sub(x, y) => word_regs(0x8, x, y, 0x5),
            Instruction::RightShift(x) => word_regs(0x8, x, 0, 0x6),
            Instruction::SubSelf(x, y) => word_regs(0x8, x, y, 0x7),
            Instruction::LeftShift(x) => word_regs(0x8, x, 0, 0xE),
            Instruction::IfNeqRg(x, y) => word_regs(0x9, x, y, 0x0),
            Instruction::SetAddr(a) => word_addr(0xA, a),
            Instruction::Jump(a) => word_addr(0xB, a),
            Instruction::Rand(x, kk) => word_val(0xC, x, kk),
            Instruction::Disp(x, y, n) => word_regs(0xD, x, y, n % 0x10),
            Instruction::KeyOpEq(x) => word_val(0xE, x, 0x9E),
            Instruction::KeyOpNeq(x) => word_val(0xE, x, 0xA1),
            Instruction::GetTimer(x) => word_val(0xF, x, 0x07),
            Instruction::GetKeyOp(x) => word_val(0xF, x, 0x0A),
            Instruction::SetTimer(x) => word_val(0xF, x, 0x15),
            Instruction::SetSoundTimer(x) => word_val(0xF, x, 0x18),
            Instruction::AddToI(x) => word_val(0xF, x, 0x1E),
            Instruction::FontLoad(x) => word_val(0xF, x, 0x29),
            Instruction::BCD(x) => word_val(0xF, x, 0x33),
            Instruction::MemDump(x) => word_val(0xF, x, 0x55),
            Instruction::MemLoad(x) => word_val(0xF, x, 0x65),
        }
    }

    /// Encodes the instruction. Operands wider than their fields are cut to
    /// the field's width.
    pub fn to_bin(&self) -> (word: u16)
        ensures
            word == self.encode(),
    {
        match *self {
            Instruction::Raw(w) => w,
            Instruction::CallPrg(a) => pack_addr(0x0, a),
            Instruction::DisplayClear => 0x00E0,
            Instruction::Return => 0x00EE,
            Instruction::GoTo(a) => pack_addr(0x1, a),
            Instruction::Call(a) => pack_addr(0x2, a),
            Instruction::IfEq(x, kk) => pack_val(0x3, x, kk),
            Instruction::IfNeq(x, kk) => pack_val(0x4, x, kk),
            Instruction::IfEqRg(x, y) => pack_regs(0x5, x, y, 0x0),
            Instruction::SetVal(x, kk) => pack_val(0x6, x, kk),
            Instruction::Add(x, kk) => pack_val(0x7, x, kk),
            Instruction::SetRg(x, y) => pack_regs(0x8, x, y, 0x0),
            Instruction::Or(x, y) => pack_regs(0x8, x, y, 0x1),
            Instruction::And(x, y) => pack_regs(0x8, x, y, 0x2),
            Instruction::Xor(x, y) => pack_regs(0x8, x, y, 0x3),
            Instruction::AddRg(x, y) => pack_regs(0x8, x, y, 0x4),
            Instruction::Sub(x, y) => pack_regs(0x8, x, y, 0x5),
            Instruction::RightShift(x) => pack_regs(0x8, x, 0, 0x6),
            Instruction::SubSelf(x, y) => pack_regs(0x8, x, y, 0x7),
            Instruction::LeftShift(x) => pack_regs(0x8, x, 0, 0xE),
            Instruction::IfNeqRg(x, y) => pack_regs(0x9, x, y, 0x0),
            Instruction::SetAddr(a) => pack_addr(0xA, a),
            Instruction::Jump(a) => pack_addr(0xB, a),
            Instruction::Rand(x, kk) => pack_val(0xC, x, kk),
            Instruction::Disp(x, y, n) => pack_regs(0xD, x, y, n % 0x10),
            Instruction::KeyOpEq(x) => pack_val(0xE, x, 0x9E),
            Instruction::KeyOpNeq(x) => pack_val(0xE, x, 0xA1),
            Instruction::GetTimer(x) => pack_val(0xF, x, 0x07),
            Instruction::GetKeyOp(x) => pack_val(0xF, x, 0x0A),
            Instruction::SetTimer(x) => pack_val(0xF, x, 0x15),
            Instruction::SetSoundTimer(x) => pack_val(0xF, x, 0x18),
            Instruction::AddToI(x) => pack_val(0xF, x, 0x1E),
            Instruction::FontLoad(x) => pack_val(0xF, x, 0x29),
            Instruction::BCD(x) => pack_val(0xF, x, 0x33),
            Instruction::MemDump(x) => pack_val(0xF, x, 0x55),
            Instruction::MemLoad(x) => pack_val(0xF, x, 0x65),
        }
    }
}

/// A register as assembly text: `v` and the index in hexadecimal.
pub open spec fn reg_text(x: Vx) -> Seq<char> {
    "v"@ + hex_text(x as nat, 1)
}

/// A number as assembly text: `0x` and at least `width` hexadecimal digits.
pub open spec fn imm_text(n: nat, width: nat) -> Seq<char> {
    "0x"@ + hex_text(n, width)
}

impl Instruction {
    /// The assembly text of an instruction: the mnemonic, then the operands
    /// with the destination first, registers as `v` and a hexadecimal
    /// digit, numbers in zero-padded hexadecimal.
    pub open spec fn assembly(self) -> Seq<char> {
        match self {
            Instruction::Raw(w) => "raw "@ + imm_text(w as nat, 4),
            Instruction::CallPrg(a) => "unimplemented CallPrg("@ + decimal_text(a as nat)
                + ").to_asm()"@,
            Instruction::DisplayClear => "cls"@,
            Instruction::Return => "ret"@,
            Instruction::GoTo(a) => "jp "@ + imm_text(a as nat, 3),
            Instruction::Call(a) => "call "@ + imm_text(a as nat, 3),
            Instruction::IfEq(x, kk) => "se "@ + reg_text(x) + ", "@ + imm_text(kk as nat, 2),
            Instruction::IfNeq(x, kk) => "sne "@ + reg_text(x) + ", "@ + imm_text(kk as nat, 2),
            Instruction::IfEqRg(x, y) => "se "@ + reg_text(x) + ", "@ + reg_text(y),
            Instruction::SetVal(x, kk) => "ld "@ + reg_text(x) + ", "@ + imm_text(kk as nat, 2),
            Instruction::Add(x, kk) => "add "@ + reg_text(x) + ", "@ + imm_text(kk as nat, 2),
            Instruction::SetRg(x, y) => "ld "@ + reg_text(x) + ", "@ + reg_text(y),
            Instruction::Or(x, y) => "or "@ + reg_text(x) + ", "@ + reg_text(y),
            Instruction::And(x, y) => "and "@ + reg_text(x) + ", "@ + reg_text(y),
            Instruction::Xor(x, y) => "xor "@ + reg_text(x) + ", "@ + reg_text(y),
            Instruction::AddRg(x, y) => "add "@ + reg_text(x) + ", "@ + reg_text(y),
            Instruction::Sub(x, y) => "sub "@ + reg_text(x) + ", "@ + reg_text(y),
            Instruction::RightShift(x) => "shr "@ + reg_text(x),
            Instruction::SubSelf(x, y) => "subn "@ + reg_text(x) + ", "@ + reg_text(y),
            Instruction::LeftShift(x) => "shl "@ + reg_text(x),
            Instruction::IfNeqRg(x, y) => "sne "@ + reg_text(x) + ", "@ + reg_text(y),
            Instruction::SetAddr(a) => "ld i, "@ + imm_text(a as nat, 2),
            Instruction::Jump(a) => "jp "@ + imm_text(a as nat, 2),
            Instruction::Rand(x, kk) => "rnd "@ + reg_text(x) + ", "@ + imm_text(kk as nat, 2),
            Instruction::Disp(x, y, n) => "drw "@ + reg_text(x) + ", "@ + reg_text(y) + ", "@
                + imm_text(n as nat, 2),
            Instruction::KeyOpEq(x) => "skp "@ + reg_text(x),
            Instruction::KeyOpNeq(x) => "sknp "@ + reg_text(x),
            Instruction::GetTimer(x) => "ld "@ + reg_text(x) + ", dt"@,
            Instruction::GetKeyOp(x) => "ld "@ + reg_text(x) + ", k"@,
            Instruction::SetTimer(x) => "ld dt, "@ + reg_text(x),
            Instruction::SetSoundTimer(x) => "ld st, "@ + reg_text(x),
            Instruction::AddToI(x) => "add i, "@ + reg_text(x),
            Instruction::FontLoad(x) => "ld f, "@ + reg_text(x),
            Instruction::BCD(x) => "ld b, "@ + reg_text(x),
            Instruction::MemDump(x) => "ld [i], "@ + reg_text(x),
            Instruction::MemLoad(x) => "ld "@ + reg_text(x) + ", [i]"@,
        }
    }

    /// Renders the instruction as assembly text.
    pub fn to_asm(&self) -> (text: String)
        ensures
            text@ == self.assembly(),
    {
        match *self {
            Instruction::Raw(w) => text_imm("raw ", w as u64, 4),
            Instruction::CallPrg(a) => {
                let mut out = String::from_str("unimplemented CallPrg(");
                push_decimal(&mut out, a as u64);
                out.append(").to_asm()");
                out
            },
            Instruction::DisplayClear => String::from_str("cls"),
            Instruction::Return => String::from_str("ret"),
            Instruction::GoTo(a) => text_imm("jp ", a as u64, 3),
            Instruction::Call(a) => text_imm("call ", a as u64, 3),
            Instruction::IfEq(x, kk) => text_reg_imm("se ", x, kk as u64),
            Instruction::IfNeq(x, kk) => text_reg_imm("sne ", x, kk as u64),
            Instruction::IfEqRg(x, y) => text_regs("se ", x, y),
            Instruction::SetVal(x, kk) => text_reg_imm("ld ", x, kk as u64),
            Instruction::Add(x, kk) => text_reg_imm("add ", x, kk as u64),
            Instruction::SetRg(x, y) => text_regs("ld ", x, y),
            Instruction::Or(x, y) => text_regs("or ", x, y),
            Instruction::And(x, y) => text_regs("and ", x, y),
            Instruction::Xor(x, y) => text_regs("xor ", x, y),
            Instruction::AddRg(x, y) => text_regs("add ", x, y),
            Instruction::Sub(x, y) => text_regs("sub ", x, y),
            Instruction::RightShift(x) => text_reg("shr ", x),
            Instruction::SubSelf(x, y) => text_regs("subn ", x, y),
            Instruction::LeftShift(x) => text_reg("shl ", x),
            Instruction::IfNeqRg(x, y) => text_regs("sne ", x, y),
            Instruction::SetAddr(a) => text_imm("ld i, ", a as u64, 2),
            Instruction::Jump(a) => text_imm("jp ", a as u64, 2),
            Instruction::Rand(x, kk) => text_reg_imm("rnd ", x, kk as u64),
            Instruction::Disp(x, y, n) => {
                let mut out = text_regs("drw ", x, y);
                out.append(", ");
                push_imm(&mut out, n as u64, 2);
                out
            },
            Instruction::KeyOpEq(x) => text_reg("skp ", x),
            Instruction::KeyOpNeq(x) => text_reg("sknp ", x),
            Instruction::GetTimer(x) => text_reg_then("ld ", x, ", dt"),
            Instruction::GetKeyOp(x) => text_reg_then("ld ", x, ", k"),
            Instruction::SetTimer(x) => text_reg("ld dt, ", x),
            Instruction::SetSoundTimer(x) => text_reg("ld st, ", x),
            Instruction::AddToI(x) => text_reg("add i, ", x),
            Instruction::FontLoad(x) => text_reg("ld f, ", x),
            Instruction::BCD(x) => text_reg("ld b, ", x),
            Instruction::MemDump(x) => text_reg("ld [i], ", x),
            Instruction::MemLoad(x) => text_reg_then("ld ", x, ", [i]"),
        }
    }
}

/// A variant with one field as Rust writes it for debugging.
pub open spec fn debug_one(name: Seq<char>, a: nat) -> Seq<char> {
    name + "("@ + decimal_text(a) + ")"@
}

/// A variant with two fields as Rust writes it for debugging.
pub open spec fn debug_two(name: Seq<char>, a: nat, b: nat) -> Seq<char> {
    name + "("@ + decimal_text(a) + ", "@ + decimal_text(b) + ")"@
}

/// A variant with three fields as Rust writes it for debugging.
pub open spec fn debug_three(name: Seq<char>, a: nat, b: nat, c: nat) -> Seq<char> {
    name + "("@ + decimal_text(a) + ", "@ + decimal_text(b) + ", "@ + decimal_text(c) + ")"@
}

impl Instruction {
    /// The instruction as Rust writes a value for debugging: the name of
    /// the variant and its fields in decimal.
    pub open spec fn debug_text(self) -> Seq<char> {
        match self {
            Instruction::Raw(w) => debug_one("Raw"@, w as nat),
            Instruction::CallPrg(a) => debug_one("CallPrg"@, a as nat),
            Instruction::DisplayClear => "DisplayClear"@,
            Instruction::Return => "Return"@,
            Instruction::GoTo(a) => debug_one("GoTo"@, a as nat),
            Instruction::Call(a) => debug_one("Call"@, a as nat),
            Instruction::IfEq(x, kk) => debug_two("IfEq"@, x as nat, kk as nat),
            Instruction::IfEqRg(x, y) => debug_two("IfEqRg"@, x as nat, y as nat),
            Instruction::IfNeq(x, kk) => debug_two("IfNeq"@, x as nat, kk as nat),
            Instruction::IfNeqRg(x, y) => debug_two("IfNeqRg"@, x as nat, y as nat),
            Instruction::SetVal(x, kk) => debug_two("SetVal"@, x as nat, kk as nat),
            Instruction::SetRg(x, y) => debug_two("SetRg"@, x as nat, y as nat),
            Instruction::Add(x, kk) => debug_two("Add"@, x as nat, kk as nat),
            Instruction::AddRg(x, y) => debug_two("AddRg"@, x as nat, y as nat),
            Instruction::Or(x, y) => debug_two("Or"@, x as nat, y as nat),
            Instruction::And(x, y) => debug_two("And"@, x as nat, y as nat),
            Instruction::Xor(x, y) => debug_two("Xor"@, x as nat, y as nat),
            Instruction::Sub(x, y) => debug_two("Sub"@, x as nat, y as nat),
            Instruction::SubSelf(x, y) => debug_two("SubSelf"@, x as nat, y as nat),
            Instruction::RightShift(x) => debug_one("RightShift"@, x as nat),
            Instruction::LeftShift(x) => debug_one("LeftShift"@, x as nat),
            Instruction::SetAddr(a) => debug_one("SetAddr"@, a as nat),
            Instruction::Jump(a) => debug_one("Jump"@, a as nat),
            Instruction::Rand(x, kk) => debug_two("Rand"@, x as nat, kk as nat),
            Instruction::Disp(x, y, n) => debug_three("Disp"@, x as nat, y as nat, n as nat),
            Instruction::KeyOpEq(x) => debug_one("KeyOpEq"@, x as nat),
            Instruction::KeyOpNeq(x) => debug_one("KeyOpNeq"@, x as nat),
            Instruction::GetTimer(x) => debug_one("GetTimer"@, x as nat),
            Instruction::SetTimer(x) => debug_one("SetTimer"@, x as nat),
            Instruction::SetSoundTimer(x) => debug_one("SetSoundTimer"@, x as nat),
            Instruction::GetKeyOp(x) => debug_one("GetKeyOp"@, x as nat),
            Instruction::AddToI(x) => debug_one("AddToI"@, x as nat),
            Instruction::FontLoad(x) => debug_one("FontLoad"@, x as nat),
            Instruction::BCD(x) => debug_one("BCD"@, x as nat),
            Instruction::MemDump(x) => debug_one("MemDump"@, x as nat),
            Instruction::MemLoad(x) => debug_one("MemLoad"@, x as nat),
        }
    }

    /// Writes the instruction as Rust writes a value for debugging.
    pub fn to_debug(&self) -> (text: String)
        ensures
            text@ == self.debug_text(),
    {
        match *self {
            Instruction::Raw(w) => text_one("Raw", w as u64),
            Instruction::CallPrg(a) => text_one("CallPrg", a as u64),
            Instruction::DisplayClear => String::from_str("DisplayClear"),
            Instruction::Return => String::from_str("Return"),
            Instruction::GoTo(a) => text_one("GoTo", a as u64),
            Instruction::Call(a) => text_one("Call", a as u64),
            Instruction::IfEq(x, kk) => text_two("IfEq", x as u64, kk as u64),
            Instruction::IfEqRg(x, y) => text_two("IfEqRg", x as u64, y as u64),
            Instruction::IfNeq(x, kk) => text_two("IfNeq", x as u64, kk as u64),
            Instruction::IfNeqRg(x, y) => text_two("IfNeqRg", x as u64, y as u64),
            Instruction::SetVal(x, kk) => text_two("SetVal", x as u64, kk as u64),
            Instruction::SetRg(x, y) => text_two("SetRg", x as u64, y as u64),
            Instruction::Add(x, kk) => text_two("Add", x as u64, kk as u64),
            Instruction::AddRg(x, y) => text_two("AddRg", x as u64, y as u64),
            Instruction::Or(x, y) => text_two("Or", x as u64, y as u64),
            Instruction::And(x, y) => text_two("And", x as u64, y as u64),
            Instruction::Xor(x, y) => text_two("Xor", x as u64, y as u64),
            Instruction::Sub(x, y) => text_two("Sub", x as u64, y as u64),
            Instruction::SubSelf(x, y) => text_two("SubSelf", x as u64, y as u64),
            Instruction::RightShift(x) => text_one("RightShift", x as u64),
            Instruction::LeftShift(x) => text_one("LeftShift", x as u64),
            Instruction::SetAddr(a) => text_one("SetAddr", a as u64),
            Instruction::Jump(a) => text_one("Jump", a as u64),
            Instruction::Rand(x, kk) => text_two("Rand", x as u64, kk as u64),
            Instruction::Disp(x, y, n) => {
                let mut out = String::from_str("Disp");
                out.append("(");
                push_decimal(&mut out, x as u64);
                out.append(", ");
                push_decimal(&mut out, y as u64);
                out.append(", ");
                push_decimal(&mut out, n as u64);
                out.append(")");
                out
            },
            Instruction::KeyOpEq(x) => text_one("KeyOpEq", x as u64),
            Instruction::KeyOpNeq(x) => text_one("KeyOpNeq", x as u64),
            Instruction::GetTimer(x) => text_one("GetTimer", x as u64),
            Instruction::SetTimer(x) => text_one("SetTimer", x as u64),
            Instruction::SetSoundTimer(x) => text_one("SetSoundTimer", x as u64),
            Instruction::GetKeyOp(x) => text_one("GetKeyOp", x as u64),
            Instruction::AddToI(x) => text_one("AddToI", x as u64),
            Instruction::FontLoad(x) => text_one("FontLoad", x as u64),
            Instruction::BCD(x) => text_one("BCD", x as u64),
            Instruction::MemDump(x) => text_one("MemDump", x as u64),
            Instruction::MemLoad(x) => text_one("MemLoad", x as u64),
        }
    }
}

fn text_one(name: &str, a: u64) -> (text: String)
    ensures
        text@ == debug_one(name@, a as nat),
{
    let mut out = String::from_str(name);
    out.append("(");
    push_decimal(&mut out, a);
    out.append(")");
    out
}

fn text_two(name: &str, a: u64, b: u64) -> (text: String)
    ensures
        text@ == debug_two(name@, a as nat, b as nat),
{
    let mut out = String::from_str(name);
    out.append("(");
    push_decimal(&mut out, a);
    out.append(", ");
    push_decimal(&mut out, b);
    out.append(")");
    out
}

fn push_reg(out: &mut String, x: Vx)
    ensures
        final(out)@ == old(out)@ + reg_text(x),
{
    out.append("v");
    push_hex(out, x as u64, 1);
    assert(out@ =~= old(out)@ + reg_text(x));
}

fn push_imm(out: &mut String, n: u64, width: usize)
    ensures
        final(out)@ == old(out)@ + imm_text(n as nat, width as nat),
{
    out.append("0x");
    push_hex(out, n, width);
    assert(out@ =~= old(out)@ + imm_text(n as nat, width as nat));
}

/// A mnemonic and a number.
fn text_imm(name: &str, n: u64, width: usize) -> (text: String)
    ensures
        text@ == name@ + imm_text(n as nat, width as nat),
{
    let mut out = String::from_str(name);
    push_imm(&mut out, n, width);
    out
}

/// A mnemonic and a register.
fn text_reg(name: &str, x: Vx) -> (text: String)
    ensures
        text@ == name@ + reg_text(x),
{
    let mut out = String::from_str(name);
    push_reg(&mut out, x);
    out
}

/// A mnemonic and a register, then what follows the register.
fn text_reg_then(name: &str, x: Vx, tail: &str) -> (text: String)
    ensures
        text@ == name@ + reg_text(x) + tail@,
{
    let mut out = String::from_str(name);
    push_reg(&mut out, x);
    out.append(tail);
    out
}

/// A mnemonic, a register and a byte.
fn text_reg_imm(name: &str, x: Vx, n: u64) -> (text: String)
    ensures
        text@ == name@ + reg_text(x) + ", "@ + imm_text(n as nat, 2),
{
    let mut out = String::from_str(name);
    push_reg(&mut out, x);
    out.append(", ");
    push_imm(&mut out, n, 2);
    out
}

/// A mnemonic and two registers.
fn text_regs(name: &str, x: Vx, y: Vx) -> (text: String)
    ensures
        text@ == name@ + reg_text(x) + ", "@ + reg_text(y),
{
    let mut out = String::from_str(name);
    push_reg(&mut out, x);
    out.append(", ");
    push_reg(&mut out, y);
    out
}

/// A word made of a family and a twelve-bit address.
pub open spec fn word_addr(family: u16, a: Addr) -> u16 {
    (family * 0x1000 + a % 0x1000) as u16
}

/// A word made of a family, a register and a byte.
pub open spec fn word_val(family: u16, x: Vx, kk: Val) -> u16 {
    (family * 0x1000 + (x % 0x10) * 0x100 + kk) as u16
}

/// A word made of a family, two registers and a last nibble.
pub open spec fn word_regs(family: u16, x: Vx, y: Vx, last: Val) -> u16 {
    (family * 0x1000 + (x % 0x10) * 0x100 + (y % 0x10) * 0x10 + last) as u16
}

fn pack_addr(family: u16, a: Addr) -> (word: u16)
    requires
        family < 0x10,
    ensures
        word == word_addr(family, a),
{
    family * 0x1000 + (a % 0x1000) as u16
}

fn pack_val(family: u16, x: Vx, kk: Val) -> (word: u16)
    requires
        family < 0x10,
    ensures
        word == word_val(family, x, kk),
{
    family * 0x1000 + (x % 0x10) as u16 * 0x100 + kk as u16
}

fn pack_regs(family: u16, x: Vx, y: Vx, last: Val) -> (word: u16)
    requires
        family < 0x10,
        last < 0x10,
    ensures
        word == word_regs(family, x, y, last),
{
    family * 0x1000 + (x % 0x10) as u16 * 0x100 + (y % 0x10) as u16 * 0x10 + last as u16
}

proof fn lemma_word_addr(family: u16, a: Addr)
    requires
        family < 0x10,
        a < 0x1000,
    ensures
        word_addr(family, a) / 0x1000 == family,
        addr_of(word_addr(family, a)) == a,
{
    let w: int = family * 0x1000 + a;
    assert(word_addr(family, a) == w);
    assert(w / 0x1000 == family);
    assert(w % 0x1000 == a);
}

proof fn lemma_word_val(family: u16, x: Vx, kk: Val)
    requires
        family < 0x10,
        x < 0x10,
    ensures
        word_val(family, x, kk) / 0x1000 == family,
        vx_of(word_val(family, x, kk)) == x,
        val_of(word_val(family, x, kk)) == kk,
{
    let w: int = family * 0x1000 + x * 0x100 + kk;
    assert(word_val(family, x, kk) == w);
    assert(w / 0x1000 == family);
    assert(w / 0x100 == family * 0x10 + x);
    assert(w % 0x100 == kk);
}

proof fn lemma_word_regs(family: u16, x: Vx, y: Vx, last: Val)
    requires
        family < 0x10,
        x < 0x10,
        y < 0x10,
        last < 0x10,
    ensures
        word_regs(family, x, y, last) / 0x1000 == family,
        vx_of(word_regs(family, x, y, last)) == x,
        vy_of(word_regs(family, x, y, last)) == y,
        small_val_of(word_regs(family, x, y, last)) == last,
{
    let w: int = family * 0x1000 + x * 0x100 + y * 0x10 + last;
    assert(word_regs(family, x, y, last) == w);
    assert(w / 0x1000 == family);
    assert(w / 0x100 == family * 0x10 + x);
    assert(w / 0x10 == family * 0x100 + x * 0x10 + y);
    assert(w % 0x10 == last);
}

/// Decoding undoes encoding: an instruction that decoding can produce is
/// what its own word decodes to.
pub proof fn lemma_decode_encode(i: Instruction)
    requires
        i.decodable(),
    ensures
        Instruction::decode(i.encode()) == Some(i),
{
    match i {
        Instruction::Raw(_) | Instruction::DisplayClear | Instruction::Return => {},
        Instruction::CallPrg(_) => {},
        Instruction::GoTo(a) => lemma_word_addr(0x1, a),
        Instruction::Call(a) => lemma_word_addr(0x2, a),
        Instruction::IfEq(x, kk) => lemma_word_val(0x3, x, kk),
        Instruction::IfNeq(x, kk) => lemma_word_val(0x4, x, kk),
        Instruction::IfEqRg(x, y) => lemma_word_regs(0x5, x, y, 0x0),
        Instruction::SetVal(x, kk) => lemma_word_val(0x6, x, kk),
        Instruction::Add(x, kk) => lemma_word_val(0x7, x, kk),
        Instruction::SetRg(x, y) => lemma_word_regs(0x8, x, y, 0x0),
        Instruction::Or(x, y) => lemma_word_regs(0x8, x, y, 0x1),
        Instruction::And(x, y) => lemma_word_regs(0x8, x, y, 0x2),
        Instruction::Xor(x, y) => lemma_word_regs(0x8, x, y, 0x3),
        Instruction::AddRg(x, y) => lemma_word_regs(0x8, x, y, 0x4),
        Instruction::Sub(x, y) => lemma_word_regs(0x8, x, y, 0x5),
        Instruction::RightShift(x) => lemma_word_regs(0x8, x, 0, 0x6),
        Instruction::SubSelf(x, y) => lemma_word_regs(0x8, x, y, 0x7),
        Instruction::LeftShift(x) => lemma_word_regs(0x8, x, 0, 0xE),
        Instruction::IfNeqRg(x, y) => lemma_word_regs(0x9, x, y, 0x0),
        Instruction::SetAddr(a) => lemma_word_addr(0xA, a),
        Instruction::Jump(a) => lemma_word_addr(0xB, a),
        Instruction::Rand(x, kk) => lemma_word_val(0xC, x, kk),
        Instruction::Disp(x, y, n) => lemma_word_regs(0xD, x, y, n),
        Instruction::KeyOpEq(x) => lemma_word_val(0xE, x, 0x9E),
        Instruction::KeyOpNeq(x) => lemma_word_val(0xE, x, 0xA1),
        Instruction::GetTimer(x) => lemma_word_val(0xF, x, 0x07),
        Instruction::GetKeyOp(x) => lemma_word_val(0xF, x, 0x0A),
        Instruction::SetTimer(x) => lemma_word_val(0xF, x, 0x15),
        Instruction::SetSoundTimer(x) => lemma_word_val(0xF, x, 0x18),
        Instruction::AddToI(x) => lemma_word_val(0xF, x, 0x1E),
        Instruction::FontLoad(x) => lemma_word_val(0xF, x, 0x29),
        Instruction::BCD(x) => lemma_word_val(0xF, x, 0x33),
        Instruction::MemDump(x) => lemma_word_val(0xF, x, 0x55),
        Instruction::MemLoad(x) => lemma_word_val(0xF, x, 0x65),
    }
}

/// Decoding yields only instructions whose operands fit their fields, so
/// encoding what was decoded changes no operand.
pub proof fn lemma_decode_is_decodable(w: u16)
    ensures
        Instruction::decode(w) matches Some(i) ==> i.decodable() && Instruction::decode(
            i.encode(),
        ) == Some(i),
{
    if let Some(i) = Instruction::decode(w) {
        lemma_decode_encode(i);
    }
}

} // verus!
