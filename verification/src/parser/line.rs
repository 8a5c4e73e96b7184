//! One line of code: its mnemonic, its operands and the symbol table that
//! its addresses are looked up in.

use vstd::prelude::*;
use vstd::string::*;
use crate::emu::instructions::{Addr, Instruction, Val, Vx};
use crate::parser::number::{
    digit_of,
    digit_value,
    literal_value,
    parse_number,
    parse_signed_literal,
    signed_literal_value,
};
use crate::parser::{LineError, LineFault};
use crate::text::{
    chars_of,
    find,
    find_char,
    lowercase,
    same_text,
    split,
    split_on,
    texts,
    to_lower,
    trim,
    trimmed,
};

verus! {

/// The address at which a program starts.
pub const CODE_START: u32 = 0x200;

/// A result of line parsing with the texts of its error as sequences of
/// characters.
pub open spec fn line_result<T>(res: Result<T, LineError>) -> Result<T, LineFault> {
    match res {
        Ok(value) => Ok(value),
        Err(e) => Err(e@),
    }
}

/// The register that a token names: `v` and one hexadecimal digit.
pub open spec fn register_index(token: Seq<char>) -> Option<Vx> {
    if token.len() == 2 && token[0] == 'v' {
        match digit_value(token[1], 16) {
            Some(d) => Some(d as Vx),
            None => None,
        }
    } else {
        None
    }
}

/// A register operand.
pub open spec fn register_operand(token: Seq<char>) -> Result<Vx, LineFault> {
    match register_index(token) {
        Some(x) => Ok(x),
        None => Err(LineFault::RegisterErr(token)),
    }
}

/// A byte operand.
pub open spec fn byte_operand(token: Seq<char>) -> Result<Val, LineFault> {
    match literal_value(token, 0xff) {
        Some(v) => Ok(v as Val),
        None => Err(LineFault::ParseIntErr),
    }
}

/// An address operand: the address of the symbol where the table knows
/// it, else the place that many instructions away from the cursor which
/// the operand gives as a signed number. Anything else is no address, nor
/// is a place below zero or beyond what an address can hold.
pub open spec fn address_operand(
    symbols: Map<Seq<char>, Addr>,
    cursor: u32,
    symbol: Seq<char>,
) -> Result<Addr, LineFault> {
    if symbols.contains_key(symbol) {
        Ok(symbols[symbol])
    } else {
        match signed_literal_value(symbol) {
            Some(offset) => if 0 <= cursor + 2 * offset <= u32::MAX {
                Ok((cursor + 2 * offset) as Addr)
            } else {
                Err(LineFault::InvalidAddress(symbol))
            },
            None => Err(LineFault::InvalidAddress(symbol)),
        }
    }
}

/// An operand that is no symbol and reads as the number `offset` is the
/// address that many instructions from the cursor: twice as many bytes.
pub proof fn lemma_relative_address(
    symbols: Map<Seq<char>, Addr>,
    cursor: u32,
    symbol: Seq<char>,
    offset: int,
)
    requires
        !symbols.contains_key(symbol),
        signed_literal_value(symbol) == Some(offset),
        0 <= cursor + 2 * offset <= u32::MAX,
    ensures
        address_operand(symbols, cursor, symbol) == Ok::<Addr, LineFault>(
            (cursor + 2 * offset) as Addr,
        ),
        (cursor + 2 * offset) as Addr - cursor == 2 * offset,
{
}

/// The second operand of an instruction that takes a register or a byte.
pub enum Second {
    Register(Vx),
    Byte(Val),
}

/// Whether a token starts like a register.
pub open spec fn starts_with_v(token: Seq<char>) -> bool {
    token.len() > 0 && token[0] == 'v'
}

/// Two register operands, read in order.
pub open spec fn two_registers(ops: Seq<Seq<char>>) -> Result<(Vx, Vx), LineFault> {
    match register_operand(ops[0]) {
        Err(e) => Err(e),
        Ok(x) => match register_operand(ops[1]) {
            Err(e) => Err(e),
            Ok(y) => Ok((x, y)),
        },
    }
}

/// A register and a byte, read in order.
pub open spec fn register_and_byte(ops: Seq<Seq<char>>) -> Result<(Vx, Val), LineFault> {
    match register_operand(ops[0]) {
        Err(e) => Err(e),
        Ok(x) => match byte_operand(ops[1]) {
            Err(e) => Err(e),
            Ok(val) => Ok((x, val)),
        },
    }
}

/// A register, then a register where the second token starts with `v`,
/// else a byte.
pub open spec fn register_and_second(ops: Seq<Seq<char>>) -> Result<(Vx, Second), LineFault> {
    match register_operand(ops[0]) {
        Err(e) => Err(e),
        Ok(x) => if starts_with_v(ops[1]) {
            match register_operand(ops[1]) {
                Err(e) => Err(e),
                Ok(y) => Ok((x, Second::Register(y))),
            }
        } else {
            match byte_operand(ops[1]) {
                Err(e) => Err(e),
                Ok(val) => Ok((x, Second::Byte(val))),
            }
        },
    }
}

/// The mnemonic of a line: what stands before the first space.
pub open spec fn mnemonic_of(ir: Seq<char>) -> Seq<char> {
    ir.subrange(0, find(ir, ' ', 0))
}

/// The operands of a line: what stands from the first space on, parted
/// at the commas and trimmed. A line without a space has none.
pub open spec fn operands_of(ir: Seq<char>) -> Seq<Seq<char>> {
    let space = find(ir, ' ', 0);
    if space >= ir.len() {
        Seq::empty()
    } else {
        let pieces = split(ir.subrange(space, ir.len() as int), ',');
        Seq::new(pieces.len(), |k: int| trimmed(pieces[k]))
    }
}

/// The fault of a line that has not the number of operands expected.
pub open spec fn wrong_count(expected: usize, ops: Seq<Seq<char>>) -> LineFault {
    LineFault::WrongNumberOfArguments(expected, ops.len() as usize)
}

/// The instruction of `ld` with two operands.
pub open spec fn load_of(
    ops: Seq<Seq<char>>,
    symbols: Map<Seq<char>, Addr>,
    cursor: u32,
) -> Result<Instruction, LineFault> {
    if ops[0] == "i"@ {
        match literal_value(ops[1], 0xffff_ffff) {
            Some(v) => Ok(Instruction::SetAddr(v as Addr)),
            None => match address_operand(symbols, cursor, ops[1]) {
                Ok(a) => Ok(Instruction::SetAddr(a)),
                Err(e) => Err(e),
            },
        }
    } else if ops[0] == "dt"@ {
        match register_operand(ops[1]) {
            Ok(x) => Ok(Instruction::SetTimer(x)),
            Err(e) => Err(e),
        }
    } else if ops[0] == "st"@ {
        match register_operand(ops[1]) {
            Ok(x) => Ok(Instruction::SetSoundTimer(x)),
            Err(e) => Err(e),
        }
    } else if ops[0] == "f"@ {
        match register_operand(ops[1]) {
            Ok(x) => Ok(Instruction::FontLoad(x)),
            Err(e) => Err(e),
        }
    } else if ops[0] == "b"@ {
        match register_operand(ops[1]) {
            Ok(x) => Ok(Instruction::BCD(x)),
            Err(e) => Err(e),
        }
    } else if ops[0] == "[i]"@ {
        match register_operand(ops[1]) {
            Ok(x) => Ok(Instruction::MemDump(x)),
            Err(e) => Err(e),
        }
    } else if ops[1] == "k"@ {
        match register_operand(ops[0]) {
            Ok(x) => Ok(Instruction::GetKeyOp(x)),
            Err(e) => Err(e),
        }
    } else if ops[1] == "dt"@ {
        match register_operand(ops[0]) {
            Ok(x) => Ok(Instruction::GetTimer(x)),
            Err(e) => Err(e),
        }
    } else if ops[1] == "[i]"@ {
        match register_operand(ops[0]) {
            Ok(x) => Ok(Instruction::MemLoad(x)),
            Err(e) => Err(e),
        }
    } else {
        match register_and_second(ops) {
            Ok((x, Second::Register(y))) => Ok(Instruction::SetRg(x, y)),
            Ok((x, Second::Byte(val))) => Ok(Instruction::SetVal(x, val)),
            Err(e) => Err(e),
        }
    }
}

/// The instruction of a mnemonic that takes one register.
pub open spec fn one_register_of(name: Seq<char>, x: Vx) -> Instruction {
    if name == "shr"@ {
        Instruction::RightShift(x)
    } else if name == "shl"@ {
        Instruction::LeftShift(x)
    } else if name == "skp"@ {
        Instruction::KeyOpEq(x)
    } else {
        Instruction::KeyOpNeq(x)
    }
}

/// The instruction of a mnemonic that takes two registers.
pub open spec fn two_registers_of(name: Seq<char>, x: Vx, y: Vx) -> Instruction {
    if name == "or"@ {
        Instruction::Or(x, y)
    } else if name == "and"@ {
        Instruction::And(x, y)
    } else if name == "xor"@ {
        Instruction::Xor(x, y)
    } else if name == "sub"@ {
        Instruction::Sub(x, y)
    } else {
        Instruction::SubSelf(x, y)
    }
}

/// The instruction that a line in lower case stands for, with the symbol
/// table and the cursor as they are when the line is reached. The
/// mnemonic is looked up first, then the number of operands is held
/// against what the mnemonic takes, then the operands are read from left
/// to right; the first fault found is the line's.
pub open spec fn instruction_of(ir: Seq<char>, symbols: Map<Seq<char>, Addr>, cursor: u32) -> Result<
    Instruction,
    LineFault,
> {
    let name = mnemonic_of(ir);
    let ops = operands_of(ir);
    if name == "call"@ {
        if ops.len() != 1 {
            Err(wrong_count(1, ops))
        } else {
            match address_operand(symbols, cursor, ops[0]) {
                Ok(a) => Ok(Instruction::Call(a)),
                Err(e) => Err(e),
            }
        }
    } else if name == "ret"@ {
        if ops.len() != 0 {
            Err(wrong_count(0, ops))
        } else {
            Ok(Instruction::Return)
        }
    } else if name == "cls"@ {
        if ops.len() != 0 {
            Err(wrong_count(0, ops))
        } else {
            Ok(Instruction::DisplayClear)
        }
    } else if name == "drw"@ {
        if ops.len() != 3 {
            Err(wrong_count(3, ops))
        } else {
            match two_registers(ops) {
                Err(e) => Err(e),
                Ok((x, y)) => match byte_operand(ops[2]) {
                    Err(e) => Err(e),
                    Ok(n) => Ok(Instruction::Disp(x, y, n)),
                },
            }
        }
    } else if name == "ld"@ {
        if ops.len() != 2 {
            Err(wrong_count(2, ops))
        } else {
            load_of(ops, symbols, cursor)
        }
    } else if name == "se"@ {
        if ops.len() != 2 {
            Err(wrong_count(2, ops))
        } else {
            match register_and_second(ops) {
                Ok((x, Second::Register(y))) => Ok(Instruction::IfEqRg(x, y)),
                Ok((x, Second::Byte(val))) => Ok(Instruction::IfEq(x, val)),
                Err(e) => Err(e),
            }
        }
    } else if name == "sne"@ {
        if ops.len() != 2 {
            Err(wrong_count(2, ops))
        } else {
            match register_and_second(ops) {
                Ok((x, Second::Register(y))) => Ok(Instruction::IfNeqRg(x, y)),
                Ok((x, Second::Byte(val))) => Ok(Instruction::IfNeq(x, val)),
                Err(e) => Err(e),
            }
        }
    } else if name == "add"@ {
        if ops.len() != 2 {
            Err(wrong_count(2, ops))
        } else if ops[0] == "i"@ {
            match register_operand(ops[1]) {
                Ok(x) => Ok(Instruction::AddToI(x)),
                Err(e) => Err(e),
            }
        } else {
            match register_and_second(ops) {
                Ok((x, Second::Register(y))) => Ok(Instruction::AddRg(x, y)),
                Ok((x, Second::Byte(val))) => Ok(Instruction::Add(x, val)),
                Err(e) => Err(e),
            }
        }
    } else if name == "rnd"@ {
        if ops.len() != 2 {
            Err(wrong_count(2, ops))
        } else {
            match register_and_byte(ops) {
                Ok((x, val)) => Ok(Instruction::Rand(x, val)),
                Err(e) => Err(e),
            }
        }
    } else if name == "jp"@ {
        if ops.len() == 1 {
            match address_operand(symbols, cursor, ops[0]) {
                Ok(a) => Ok(Instruction::GoTo(a)),
                Err(e) => Err(e),
            }
        } else if ops.len() == 2 {
            if ops[0] != "v0"@ {
                Err(LineFault::WrongJumpRegister)
            } else {
                match address_operand(symbols, cursor, ops[1]) {
                    Ok(a) => Ok(Instruction::Jump(a)),
                    Err(e) => Err(e),
                }
            }
        } else {
            Err(wrong_count(1, ops))
        }
    } else if name == "or"@ || name == "and"@ || name == "xor"@ || name == "sub"@ || name
        == "subn"@ {
        if ops.len() != 2 {
            Err(wrong_count(2, ops))
        } else {
            match two_registers(ops) {
                Ok((x, y)) => Ok(two_registers_of(name, x, y)),
                Err(e) => Err(e),
            }
        }
    } else if name == "shr"@ || name == "shl"@ || name == "skp"@ || name == "sknp"@ {
        if ops.len() != 1 {
            Err(wrong_count(1, ops))
        } else {
            match register_operand(ops[0]) {
                Ok(x) => Ok(one_register_of(name, x)),
                Err(e) => Err(e),
            }
        }
    } else {
        Err(LineFault::InstructionErr(name))
    }
}

/// The table that a list of entries stands for: a later entry of a name
/// replaces an earlier one.
pub open spec fn table_map(entries: Seq<(String, Addr)>) -> Map<Seq<char>, Addr>
    decreases entries.len(),
{
    if entries.len() == 0 {
        Map::empty()
    } else {
        table_map(entries.drop_last()).insert(entries.last().0@, entries.last().1)
    }
}

/// Holds `received` against the number of operands `expected`.
pub fn assert_num_args(expected: usize, received: usize) -> (res: Result<(), LineError>)
    ensures
        line_result(res) == if expected == received {
            Ok::<(), LineFault>(())
        } else {
            Err(LineFault::WrongNumberOfArguments(expected, received))
        },
{
    if expected != received {
        Err(LineError::WrongNumberOfArguments(expected, received))
    } else {
        Ok(())
    }
}

/// Reads a register: `v` and one hexadecimal digit. Anything else fails
/// with the token.
pub fn parse_register(reg: &str) -> (res: Result<Vx, LineError>)
    ensures
        line_result(res) == register_operand(reg@),
{
    let chars = chars_of(reg);
    if chars.len() == 2 && chars[0] == 'v' {
        match digit_of(chars[1], 16) {
            Some(d) => Ok(d as Vx),
            None => Err(LineError::RegisterErr(String::from_str(reg))),
        }
    } else {
        Err(LineError::RegisterErr(String::from_str(reg)))
    }
}

/// Reads a byte operand.
fn parse_byte(token: &str) -> (res: Result<Val, LineError>)
    ensures
        line_result(res) == byte_operand(token@),
{
    match parse_number::<u8>(token) {
        Ok(val) => Ok(val),
        Err(e) => Err(e),
    }
}

/// Whether a token starts with `v`.
fn is_register_like(token: &str) -> (like: bool)
    ensures
        like == starts_with_v(token@),
{
    let chars = chars_of(token);
    chars.len() > 0 && chars[0] == 'v'
}

fn parse_two_registers(tokens: &Vec<&str>) -> (res: Result<(Vx, Vx), LineError>)
    requires
        tokens@.len() >= 2,
    ensures
        line_result(res) == two_registers(texts(tokens@)),
{
    let x = match parse_register(tokens[0]) {
        Ok(x) => x,
        Err(e) => {
            return Err(e);
        },
    };
    let y = match parse_register(tokens[1]) {
        Ok(y) => y,
        Err(e) => {
            return Err(e);
        },
    };
    Ok((x, y))
}

fn parse_register_and_byte(tokens: &Vec<&str>) -> (res: Result<(Vx, Val), LineError>)
    requires
        tokens@.len() >= 2,
    ensures
        line_result(res) == register_and_byte(texts(tokens@)),
{
    let x = match parse_register(tokens[0]) {
        Ok(x) => x,
        Err(e) => {
            return Err(e);
        },
    };
    let val = match parse_byte(tokens[1]) {
        Ok(val) => val,
        Err(e) => {
            return Err(e);
        },
    };
    Ok((x, val))
}

fn parse_register_and_second(tokens: &Vec<&str>) -> (res: Result<(Vx, Second), LineError>)
    requires
        tokens@.len() >= 2,
    ensures
        line_result(res) == register_and_second(texts(tokens@)),
{
    let x = match parse_register(tokens[0]) {
        Ok(x) => x,
        Err(e) => {
            return Err(e);
        },
    };
    if is_register_like(tokens[1]) {
        match parse_register(tokens[1]) {
            Ok(y) => Ok((x, Second::Register(y))),
            Err(e) => Err(e),
        }
    } else {
        match parse_byte(tokens[1]) {
            Ok(val) => Ok((x, Second::Byte(val))),
            Err(e) => Err(e),
        }
    }
}

/// The assembler's state: the symbol table and the address that the next
/// instruction gets.
pub struct Parser {
    known_addresses: Vec<(String, Addr)>,
    current_pointer: u32,
}

impl Default for Parser {
    /// A parser that knows no symbol and stands at the start of the code.
    fn default() -> (parser: Self)
        ensures
            parser.symbols() == Map::<Seq<char>, Addr>::empty(),
            parser.cursor() == CODE_START,
    {
        Parser { known_addresses: Vec::new(), current_pointer: 0x200 }
    }
}

impl Parser {
    /// The address of every symbol that is known.
    pub closed spec fn symbols(&self) -> Map<Seq<char>, Addr> {
        table_map(self.known_addresses@)
    }

    /// The address that the next instruction gets.
    pub closed spec fn cursor(&self) -> u32 {
        self.current_pointer
    }

    /// The address that the next instruction gets.
    pub fn position(&self) -> (at: u32)
        ensures
            at == self.cursor(),
    {
        self.current_pointer
    }

    /// Moves the cursor to `at`.
    pub(crate) fn set_position(&mut self, at: u32)
        ensures
            final(self).cursor() == at,
            final(self).symbols() == old(self).symbols(),
    {
        self.current_pointer = at;
    }

    /// The address of a symbol, if it is known.
    pub fn lookup(&self, name: &str) -> (addr: Option<Addr>)
        ensures
            addr == if self.symbols().contains_key(name@) {
                Some(self.symbols()[name@])
            } else {
                None
            },
    {
        let mut k: usize = self.known_addresses.len();
        assert(self.known_addresses@.subrange(0, k as int) =~= self.known_addresses@);
        while k > 0
            invariant
                k <= self.known_addresses@.len(),
                table_map(self.known_addresses@).contains_key(name@) == table_map(
                    self.known_addresses@.subrange(0, k as int),
                ).contains_key(name@),
                table_map(self.known_addresses@).contains_key(name@) ==> table_map(
                    self.known_addresses@,
                )[name@] == table_map(self.known_addresses@.subrange(0, k as int))[name@],
            decreases k,
        {
            let ghost upto = self.known_addresses@.subrange(0, k as int);
            assert(upto.drop_last() =~= self.known_addresses@.subrange(0, k - 1));
            assert(upto.last() == self.known_addresses@[k - 1]);
            k -= 1;
            if same_text(self.known_addresses[k].0.as_str(), name) {
                return Some(self.known_addresses[k].1);
            }
        }
        assert(self.known_addresses@.subrange(0, 0) =~= Seq::<(String, Addr)>::empty());
        None
    }

    /// Gives a symbol an address and returns the address it had.
    pub fn insert(&mut self, name: &str, addr: Addr) -> (previous: Option<Addr>)
        ensures
            previous == if old(self).symbols().contains_key(name@) {
                Some(old(self).symbols()[name@])
            } else {
                None
            },
            final(self).symbols() == old(self).symbols().insert(name@, addr),
            final(self).cursor() == old(self).cursor(),
    {
        let previous = self.lookup(name);
        let ghost before = self.known_addresses@;
        self.known_addresses.push((String::from_str(name), addr));
        assert(self.known_addresses@.drop_last() =~= before);
        previous
    }

    /// Reads an address operand: a known symbol, else a signed number of
    /// instructions from the cursor.
    pub fn parse_addr(&self, symbol: &str) -> (res: Result<Addr, LineError>)
        ensures
            line_result(res) == address_operand(self.symbols(), self.cursor(), symbol@),
    {
        if let Some(location) = self.lookup(symbol) {
            Ok(location)
        } else {
            match parse_signed_literal(symbol) {
                Some(offset) => {
                    let target: i64 = 2 * (offset as i64) + self.current_pointer as i64;
                    if 0 <= target && target <= 0xffff_ffff {
                        Ok(target as u32)
                    } else {
                        Err(LineError::InvalidAddress(String::from_str(symbol)))
                    }
                },
                None => Err(LineError::InvalidAddress(String::from_str(symbol))),
            }
        }
    }

    /// Reads the two operands of `ld`.
    fn parse_load(&self, tokens: &Vec<&str>) -> (res: Result<Instruction, LineError>)
        requires
            tokens@.len() == 2,
        ensures
            line_result(res) == load_of(texts(tokens@), self.symbols(), self.cursor()),
    {
        if same_text(tokens[0], "i") {
            match parse_number::<u32>(tokens[1]) {
                Ok(val) => Ok(Instruction::SetAddr(val)),
                Err(_) => match self.parse_addr(tokens[1]) {
                    Ok(addr) => Ok(Instruction::SetAddr(addr)),
                    Err(e) => Err(e),
                },
            }
        } else if same_text(tokens[0], "dt") {
            match parse_register(tokens[1]) {
                Ok(x) => Ok(Instruction::SetTimer(x)),
                Err(e) => Err(e),
            }
        } else if same_text(tokens[0], "st") {
            match parse_register(tokens[1]) {
                Ok(x) => Ok(Instruction::SetSoundTimer(x)),
                Err(e) => Err(e),
            }
        } else if same_text(tokens[0], "f") {
            match parse_register(tokens[1]) {
                Ok(x) => Ok(Instruction::FontLoad(x)),
                Err(e) => Err(e),
            }
        } else if same_text(tokens[0], "b") {
            match parse_register(tokens[1]) {
                Ok(x) => Ok(Instruction::BCD(x)),
                Err(e) => Err(e),
            }
        } else if same_text(tokens[0], "[i]") {
            match parse_register(tokens[1]) {
                Ok(x) => Ok(Instruction::MemDump(x)),
                Err(e) => Err(e),
            }
        } else if same_text(tokens[1], "k") {
            match parse_register(tokens[0]) {
                Ok(x) => Ok(Instruction::GetKeyOp(x)),
                Err(e) => Err(e),
            }
        } else if same_text(tokens[1], "dt") {
            match parse_register(tokens[0]) {
                Ok(x) => Ok(Instruction::GetTimer(x)),
                Err(e) => Err(e),
            }
        } else if same_text(tokens[1], "[i]") {
            match parse_register(tokens[0]) {
                Ok(x) => Ok(Instruction::MemLoad(x)),
                Err(e) => Err(e),
            }
        } else {
            match parse_register_and_second(tokens) {
                Ok((x, Second::Register(y))) => Ok(Instruction::SetRg(x, y)),
                Ok((x, Second::Byte(val))) => Ok(Instruction::SetVal(x, val)),
                Err(e) => Err(e),
            }
        }
    }

    /// Reads the operands of `jp`: an address, or `v0` and an address.
    fn parse_jump(&self, tokens: &Vec<&str>) -> (res: Result<Instruction, LineError>)
        ensures
            line_result(res) == if tokens@.len() == 1 {
                match address_operand(self.symbols(), self.cursor(), tokens@[0]@) {
                    Ok(a) => Ok::<Instruction, LineFault>(Instruction::GoTo(a)),
                    Err(e) => Err(e),
                }
            } else if tokens@.len() == 2 {
                if tokens@[0]@ != "v0"@ {
                    Err(LineFault::WrongJumpRegister)
                } else {
                    match address_operand(self.symbols(), self.cursor(), tokens@[1]@) {
                        Ok(a) => Ok(Instruction::Jump(a)),
                        Err(e) => Err(e),
                    }
                }
            } else {
                Err(wrong_count(1, texts(tokens@)))
            },
    {
        if tokens.len() == 1 {
            match self.parse_addr(tokens[0]) {
                Ok(offset) => Ok(Instruction::GoTo(offset)),
                Err(e) => Err(e),
            }
        } else if tokens.len() == 2 {
            if !same_text(tokens[0], "v0") {
                Err(LineError::WrongJumpRegister)
            } else {
                match self.parse_addr(tokens[1]) {
                    Ok(addr) => Ok(Instruction::Jump(addr)),
                    Err(e) => Err(e),
                }
            }
        } else {
            Err(LineError::WrongNumberOfArguments(1, tokens.len()))
        }
    }

    /// Reads a line of code that is in lower case already.
    pub fn parse_lowered(&self, ir: &str) -> (res: Result<Instruction, LineError>)
        ensures
            line_result(res) == instruction_of(ir@, self.symbols(), self.cursor()),
    {
        let chars = chars_of(ir);
        let space = find_char(&chars, ' ', 0);
        let instruction: &str = ir.substring_char(0, space);
        let tokens: Vec<&str> = if space < chars.len() {
            operands(ir.substring_char(space, chars.len()))
        } else {
            Vec::new()
        };
        let ghost ops = texts(tokens@);
        assert(instruction@ == mnemonic_of(ir@));
        assert(ops =~= operands_of(ir@));
        if same_text(instruction, "call") {
            if let Err(e) = assert_num_args(1, tokens.len()) {
                return Err(e);
            }
            match self.parse_addr(tokens[0]) {
                Ok(addr) => Ok(Instruction::Call(addr)),
                Err(e) => Err(e),
            }
        } else if same_text(instruction, "ret") {
            if let Err(e) = assert_num_args(0, tokens.len()) {
                return Err(e);
            }
            Ok(Instruction::Return)
        } else if same_text(instruction, "cls") {
            if let Err(e) = assert_num_args(0, tokens.len()) {
                return Err(e);
            }
            Ok(Instruction::DisplayClear)
        } else if same_text(instruction, "drw") {
            if let Err(e) = assert_num_args(3, tokens.len()) {
                return Err(e);
            }
            match parse_two_registers(&tokens) {
                Err(e) => Err(e),
                Ok((x, y)) => match parse_byte(tokens[2]) {
                    Err(e) => Err(e),
                    Ok(n) => Ok(Instruction::Disp(x, y, n)),
                },
            }
        } else if same_text(instruction, "ld") {
            if let Err(e) = assert_num_args(2, tokens.len()) {
                return Err(e);
            }
            self.parse_load(&tokens)
        } else if same_text(instruction, "se") {
            if let Err(e) = assert_num_args(2, tokens.len()) {
                return Err(e);
            }
            match parse_register_and_second(&tokens) {
                Ok((x, Second::Register(y))) => Ok(Instruction::IfEqRg(x, y)),
                Ok((x, Second::Byte(val))) => Ok(Instruction::IfEq(x, val)),
                Err(e) => Err(e),
            }
        } else if same_text(instruction, "sne") {
            if let Err(e) = assert_num_args(2, tokens.len()) {
                return Err(e);
            }
            match parse_register_and_second(&tokens) {
                Ok((x, Second::Register(y))) => Ok(Instruction::IfNeqRg(x, y)),
                Ok((x, Second::Byte(val))) => Ok(Instruction::IfNeq(x, val)),
                Err(e) => Err(e),
            }
        } else if same_text(instruction, "add") {
            if let Err(e) = assert_num_args(2, tokens.len()) {
                return Err(e);
            }
            if same_text(tokens[0], "i") {
                match parse_register(tokens[1]) {
                    Ok(x) => Ok(Instruction::AddToI(x)),
                    Err(e) => Err(e),
                }
            } else {
                match parse_register_and_second(&tokens) {
                    Ok((x, Second::Register(y))) => Ok(Instruction::AddRg(x, y)),
                    Ok((x, Second::Byte(val))) => Ok(Instruction::Add(x, val)),
                    Err(e) => Err(e),
                }
            }
        } else if same_text(instruction, "rnd") {
            if let Err(e) = assert_num_args(2, tokens.len()) {
                return Err(e);
            }
            match parse_register_and_byte(&tokens) {
                Ok((x, val)) => Ok(Instruction::Rand(x, val)),
                Err(e) => Err(e),
            }
        } else if same_text(instruction, "jp") {
            self.parse_jump(&tokens)
        } else if takes_two_registers(instruction) {
            if let Err(e) = assert_num_args(2, tokens.len()) {
                return Err(e);
            }
            match parse_two_registers(&tokens) {
                Ok((x, y)) => Ok(two_register_instruction(instruction, x, y)),
                Err(e) => Err(e),
            }
        } else if takes_one_register(instruction) {
            if let Err(e) = assert_num_args(1, tokens.len()) {
                return Err(e);
            }
            match parse_register(tokens[0]) {
                Ok(x) => Ok(one_register_instruction(instruction, x)),
                Err(e) => Err(e),
            }
        } else {
            Err(LineError::InstructionErr(String::from_str(instruction)))
        }
    }

    /// Reads a line of code, whatever its case, and moves the cursor past
    /// the instruction where there is one.
    pub fn parse_instr(&mut self, line: &str) -> (res: Result<Instruction, LineError>)
        requires
            old(self).cursor() + 2 <= u32::MAX,
        ensures
            line_result(res) == instruction_of(
                lowercase(line@),
                old(self).symbols(),
                old(self).cursor(),
            ),
            final(self).symbols() == old(self).symbols(),
            final(self).cursor() == if res is Ok {
                old(self).cursor() + 2
            } else {
                old(self).cursor() as int
            },
    {
        let ir = to_lower(line);
        let res = self.parse_lowered(ir.as_str());
        if res.is_ok() {
            self.current_pointer += 2;
        }
        res
    }
}

/// The operands of a line: the pieces between the commas, trimmed.
fn operands<'a>(rest: &'a str) -> (tokens: Vec<&'a str>)
    ensures
        texts(tokens@) == Seq::new(
            split(rest@, ',').len(),
            |k: int| trimmed(split(rest@, ',')[k]),
        ),
{
    let pieces = split_on(rest, ',');
    let mut tokens: Vec<&'a str> = Vec::new();
    let mut k: usize = 0;
    while k < pieces.len()
        invariant
            k <= pieces@.len(),
            tokens@.len() == k,
            texts(pieces@) == split(rest@, ','),
            forall|j: int| 0 <= j < k ==> tokens@[j]@ == trimmed(pieces@[j]@),
        decreases pieces@.len() - k,
    {
        tokens.push(trim(pieces[k]));
        k += 1;
    }
    assert(texts(tokens@) =~= Seq::new(
        split(rest@, ',').len(),
        |k: int| trimmed(split(rest@, ',')[k]),
    )) by {
        assert forall|j: int| 0 <= j < pieces@.len() implies texts(tokens@)[j] == trimmed(
            split(rest@, ',')[j],
        ) by {
            assert(texts(pieces@)[j] == pieces@[j]@);
        }
    }
    tokens
}

/// Whether the mnemonic is one that takes two registers and nothing else.
fn takes_two_registers(name: &str) -> (takes: bool)
    ensures
        takes == (name@ == "or"@ || name@ == "and"@ || name@ == "xor"@ || name@ == "sub"@ || name@
            == "subn"@),
{
    same_text(name, "or") || same_text(name, "and") || same_text(name, "xor") || same_text(
        name,
        "sub",
    ) || same_text(name, "subn")
}

/// Whether the mnemonic is one that takes one register and nothing else.
fn takes_one_register(name: &str) -> (takes: bool)
    ensures
        takes == (name@ == "shr"@ || name@ == "shl"@ || name@ == "skp"@ || name@ == "sknp"@),
{
    same_text(name, "shr") || same_text(name, "shl") || same_text(name, "skp") || same_text(
        name,
        "sknp",
    )
}

fn two_register_instruction(name: &str, x: Vx, y: Vx) -> (instr: Instruction)
    ensures
        instr == two_registers_of(name@, x, y),
{
    if same_text(name, "or") {
        Instruction::Or(x, y)
    } else if same_text(name, "and") {
        Instruction::And(x, y)
    } else if same_text(name, "xor") {
        Instruction::Xor(x, y)
    } else if same_text(name, "sub") {
        Instruction::Sub(x, y)
    } else {
        Instruction::SubSelf(x, y)
    }
}

fn one_register_instruction(name: &str, x: Vx) -> (instr: Instruction)
    ensures
        instr == one_register_of(name@, x),
{
    if same_text(name, "shr") {
        Instruction::RightShift(x)
    } else if same_text(name, "shl") {
        Instruction::LeftShift(x)
    } else if same_text(name, "skp") {
        Instruction::KeyOpEq(x)
    } else {
        Instruction::KeyOpNeq(x)
    }
}

} // verus!
