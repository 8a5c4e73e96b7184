//! The two-pass assembler: from assembly text to instructions.

pub mod line;
pub mod number;
pub mod program;

use vstd::prelude::*;
use vstd::string::*;
use crate::text::{decimal_text, push_decimal};

pub use line::{assert_num_args, parse_register, Parser};
pub use number::{parse_number, FromStrRadix};
pub use program::parse;

verus! {

/// What is wrong with one line of assembly text.
#[derive(Debug, PartialEq, Eq)]
pub enum LineError {
    /// The operands expected and the operands found.
    WrongNumberOfArguments(usize, usize),
    /// The register-indexed jump names a register other than `v0`.
    WrongJumpRegister,
    UnknownSection(String),
    /// The mnemonic is not in the instruction table.
    InstructionErr(String),
    RegisterErr(String),
    /// A numeric literal is malformed or does not fit its operand.
    ParseIntErr,
    InvalidAddress(String),
    DuplicateAddress(String),
}

/// Why a program could not be assembled.
#[derive(Debug, PartialEq, Eq)]
pub enum ParserError {
    NoCodeSection,
    LineErr { line_number: usize, error: LineError },
}

/// A line error with its texts as sequences of characters.
pub enum LineFault {
    WrongNumberOfArguments(usize, usize),
    WrongJumpRegister,
    UnknownSection(Seq<char>),
    InstructionErr(Seq<char>),
    RegisterErr(Seq<char>),
    ParseIntErr,
    InvalidAddress(Seq<char>),
    DuplicateAddress(Seq<char>),
}

/// A parser error with its texts as sequences of characters.
pub enum ParserFault {
    NoCodeSection,
    LineErr { line_number: usize, error: LineFault },
}

impl View for LineError {
    type V = LineFault;

    open spec fn view(&self) -> LineFault {
        match *self {
            LineError::WrongNumberOfArguments(expected, received) => LineFault::WrongNumberOfArguments(
                expected,
                received,
            ),
            LineError::WrongJumpRegister => LineFault::WrongJumpRegister,
            LineError::UnknownSection(name) => LineFault::UnknownSection(name@),
            LineError::InstructionErr(name) => LineFault::InstructionErr(name@),
            LineError::RegisterErr(name) => LineFault::RegisterErr(name@),
            LineError::ParseIntErr => LineFault::ParseIntErr,
            LineError::InvalidAddress(name) => LineFault::InvalidAddress(name@),
            LineError::DuplicateAddress(name) => LineFault::DuplicateAddress(name@),
        }
    }
}

impl View for ParserError {
    type V = ParserFault;

    open spec fn view(&self) -> ParserFault {
        match *self {
            ParserError::NoCodeSection => ParserFault::NoCodeSection,
            ParserError::LineErr { line_number, error } => ParserFault::LineErr {
                line_number,
                error: error@,
            },
        }
    }
}

impl ParserError {
    /// The error `err` at line `number`.
    pub fn line(number: usize, err: LineError) -> (e: Self)
        ensures
            e == (ParserError::LineErr { line_number: number, error: err }),
    {
        ParserError::LineErr { line_number: number, error: err }
    }
}

impl LineFault {
    /// What is said of the fault to the user.
    pub open spec fn message(self) -> Seq<char> {
        match self {
            LineFault::UnknownSection(section) => "unknown section '"@ + section + "'"@,
            LineFault::InvalidAddress(address) => "address '"@ + address + "' is invalid"@,
            LineFault::DuplicateAddress(address) => "address '"@ + address
                + "' has already been declared"@,
            LineFault::WrongNumberOfArguments(expected, received) =>
                "wrong number of arguments expected "@ + decimal_text(expected as nat)
                    + " but got "@ + decimal_text(received as nat),
            LineFault::WrongJumpRegister => "you can only jump to xxx + v0"@,
            LineFault::InstructionErr(instruction) => "wrong instruction: '"@ + instruction
                + "'"@,
            LineFault::RegisterErr(register) => "invalid register '"@ + register + "'"@,
            LineFault::ParseIntErr => "invalid integer"@,
        }
    }
}

impl ParserFault {
    /// What is said of the fault to the user: the line, then the fault.
    pub open spec fn message(self) -> Seq<char> {
        match self {
            ParserFault::NoCodeSection => "missing .code section"@,
            ParserFault::LineErr { line_number, error } => "line "@ + decimal_text(
                line_number as nat,
            ) + ": "@ + error.message(),
        }
    }
}

/// A text between a start and an end.
fn enclosed(start: &str, middle: &str, end: &str) -> (text: String)
    ensures
        text@ == start@ + middle@ + end@,
{
    let mut out = String::from_str(start);
    out.append(middle);
    out.append(end);
    out
}

impl LineError {
    /// The message of the error.
    pub fn to_string(&self) -> (text: String)
        ensures
            text@ == self@.message(),
    {
        match self {
            LineError::UnknownSection(section) => enclosed(
                "unknown section '",
                section.as_str(),
                "'",
            ),
            LineError::InvalidAddress(address) => enclosed(
                "address '",
                address.as_str(),
                "' is invalid",
            ),
            LineError::DuplicateAddress(address) => enclosed(
                "address '",
                address.as_str(),
                "' has already been declared",
            ),
            LineError::WrongNumberOfArguments(expected, received) => {
                let mut out = String::from_str("wrong number of arguments expected ");
                push_decimal(&mut out, *expected as u64);
                out.append(" but got ");
                push_decimal(&mut out, *received as u64);
                out
            },
            LineError::WrongJumpRegister => String::from_str("you can only jump to xxx + v0"),
            LineError::InstructionErr(instruction) => enclosed(
                "wrong instruction: '",
                instruction.as_str(),
                "'",
            ),
            LineError::RegisterErr(register) => enclosed(
                "invalid register '",
                register.as_str(),
                "'",
            ),
            LineError::ParseIntErr => String::from_str("invalid integer"),
        }
    }
}

impl ParserError {
    /// The message of the error.
    pub fn to_string(&self) -> (text: String)
        ensures
            text@ == self@.message(),
    {
        match self {
            ParserError::NoCodeSection => String::from_str("missing .code section"),
            ParserError::LineErr { line_number, error } => {
                let mut out = String::from_str("line ");
                push_decimal(&mut out, *line_number as u64);
                out.append(": ");
                let message = error.to_string();
                out.append(message.as_str());
                out
            },
        }
    }
}

} // verus!
