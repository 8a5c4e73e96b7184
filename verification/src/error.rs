//! The error type shared by the codec, the assembler and the machine.

use vstd::prelude::*;
use vstd::string::*;
use crate::text::{hex_text, push_hex, quoted, to_quoted};
use crate::emu::Instruction;
use crate::parser::{ParserError, ParserFault};

verus! {

#[derive(Debug, PartialEq, Eq)]
pub enum ChipoError {
    /// A file whose extension names neither assembly text nor a binary.
    InvalidFile(String),
    /// The word decodes to an instruction that the machine cannot run.
    UnimplementedOpCodeErr(u16, Instruction),
    /// The word decodes to no instruction.
    UnknownOpCodeErr(u16),
    ParserError(ParserError),
    /// The message of a failed read or write.
    IOError(String),
}

/// An error with its texts as sequences of characters.
pub enum ChipoFault {
    InvalidFile(Seq<char>),
    UnimplementedOpCodeErr(u16, Instruction),
    UnknownOpCodeErr(u16),
    ParserError(ParserFault),
    IOError(Seq<char>),
}

impl View for ChipoError {
    type V = ChipoFault;

    open spec fn view(&self) -> ChipoFault {
        match *self {
            ChipoError::InvalidFile(name) => ChipoFault::InvalidFile(name@),
            ChipoError::UnimplementedOpCodeErr(word, instr) => ChipoFault::UnimplementedOpCodeErr(
                word,
                instr,
            ),
            ChipoError::UnknownOpCodeErr(word) => ChipoFault::UnknownOpCodeErr(word),
            ChipoError::ParserError(e) => ChipoFault::ParserError(e@),
            ChipoError::IOError(message) => ChipoFault::IOError(message@),
        }
    }
}

pub type Result<T> = std::result::Result<T, ChipoError>;

impl ChipoFault {
    /// What is said of the fault to the user.
    pub open spec fn message(self) -> Seq<char> {
        match self {
            ChipoFault::UnimplementedOpCodeErr(word, instr) => "unimplemented OpCode 0x"@
                + hex_text(word as nat, 4) + " "@ + instr.debug_text(),
            ChipoFault::UnknownOpCodeErr(word) => "OpCode 0x"@ + hex_text(word as nat, 4)
                + " not known"@,
            ChipoFault::ParserError(e) => e.message(),
            ChipoFault::IOError(message) => "io error: "@ + message,
            ChipoFault::InvalidFile(name) => "error: InvalidFile("@ + quoted(name) + ")"@,
        }
    }
}

impl ChipoError {
    /// The message of the error.
    pub fn to_string(&self) -> (text: String)
        ensures
            text@ == self@.message(),
    {
        match self {
            ChipoError::UnimplementedOpCodeErr(word, instr) => {
                let mut out = String::from_str("unimplemented OpCode 0x");
                push_hex(&mut out, *word as u64, 4);
                out.append(" ");
                let written = instr.to_debug();
                out.append(written.as_str());
                out
            },
            ChipoError::UnknownOpCodeErr(word) => {
                let mut out = String::from_str("OpCode 0x");
                push_hex(&mut out, *word as u64, 4);
                out.append(" not known");
                out
            },
            ChipoError::ParserError(e) => e.to_string(),
            ChipoError::IOError(message) => {
                let mut out = String::from_str("io error: ");
                out.append(message.as_str());
                out
            },
            ChipoError::InvalidFile(name) => {
                let mut out = String::from_str("error: InvalidFile(");
                let written = to_quoted(name.as_str());
                out.append(written.as_str());
                out.append(")");
                out
            },
        }
    }
}

impl vstd::std_specs::convert::FromSpecImpl<ParserError> for ChipoError {
    open spec fn obeys_from_spec() -> bool {
        true
    }

    open spec fn from_spec(err: ParserError) -> ChipoError {
        ChipoError::ParserError(err)
    }
}

impl From<ParserError> for ChipoError {
    fn from(err: ParserError) -> (e: Self) {
        ChipoError::ParserError(err)
    }
}

} // verus!
