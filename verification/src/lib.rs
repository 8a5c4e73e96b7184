//! A toolchain for the CHIP-8 virtual machine: the instruction codec, a
//! two-pass assembler with its disassembler, and the execution engine.

pub mod text;
pub mod emu;
pub mod error;
pub mod parser;

use vstd::prelude::*;
use vstd::string::*;

use crate::emu::instructions::lemma_decode_encode;
use crate::emu::Instruction;
use crate::error::{ChipoError, ChipoFault};
use crate::parser::parse;
use crate::parser::program::{program_of, MAX_SOURCE_LEN};

verus! {

/// The bytes of a program: each instruction as its word, high byte first.
pub open spec fn encoded(instructions: Seq<Instruction>) -> Seq<u8> {
    Seq::new(
        2 * instructions.len(),
        |k: int|
            if k % 2 == 0 {
                (instructions[k / 2].encode() / 0x100) as u8
            } else {
                (instructions[k / 2].encode() % 0x100) as u8
            },
    )
}

/// The word that bytes `2k` and `2k + 1` make, high byte first.
pub open spec fn word_at(bytes: Seq<u8>, k: int) -> u16 {
    (bytes[2 * k] * 0x100 + bytes[2 * k + 1]) as u16
}

/// The line of a listing for a word: the instruction that it decodes to,
/// or the word as raw data where it decodes to none, behind two spaces.
pub open spec fn listing_line(word: u16) -> Seq<char> {
    "  "@ + match Instruction::decode(word) {
        Some(instr) => instr.assembly(),
        None => Instruction::Raw(word).assembly(),
    }
}

/// The listing of the first `upto` words, one line each, with line breaks
/// between the lines.
pub open spec fn listing(bytes: Seq<u8>, upto: nat) -> Seq<char>
    decreases upto,
{
    if upto == 0 {
        Seq::empty()
    } else if upto == 1 {
        listing_line(word_at(bytes, 0))
    } else {
        listing(bytes, (upto - 1) as nat) + "\n"@ + listing_line(word_at(bytes, upto - 1))
    }
}

/// The listing of the first `upto` instructions themselves, one line
/// each, with line breaks between the lines.
pub open spec fn listing_of(instructions: Seq<Instruction>, upto: nat) -> Seq<char>
    decreases upto,
{
    if upto == 0 {
        Seq::empty()
    } else if upto == 1 {
        "  "@ + instructions[0].assembly()
    } else {
        listing_of(instructions, (upto - 1) as nat) + "\n"@ + ("  "@ + instructions[upto
            - 1].assembly())
    }
}

/// The bytes of instructions hold their words.
pub proof fn lemma_word_of_encoded(instructions: Seq<Instruction>, k: int)
    requires
        0 <= k < instructions.len(),
    ensures
        word_at(encoded(instructions), k) == instructions[k].encode(),
{
    let bytes = encoded(instructions);
    let word = instructions[k].encode();
    assert(bytes[2 * k] == (word / 0x100) as u8);
    assert(bytes[2 * k + 1] == (word % 0x100) as u8);
}

/// Disassembling what instructions encode to lists the instructions
/// themselves, where each of them is one that decoding can produce.
pub proof fn lemma_listing_of_encoded(instructions: Seq<Instruction>, upto: nat)
    requires
        upto <= instructions.len(),
        forall|k: int| 0 <= k < upto ==> (#[trigger] instructions[k]).decodable(),
    ensures
        listing(encoded(instructions), upto) == listing_of(instructions, upto),
    decreases upto,
{
    if upto > 0 {
        lemma_listing_of_encoded(instructions, (upto - 1) as nat);
        lemma_word_of_encoded(instructions, upto - 1);
        lemma_decode_encode(instructions[upto - 1]);
    }
}

/// Assembles a program to its bytes.
pub fn compile(source: String) -> (res: Result<Vec<u8>, ChipoError>)
    requires
        source@.len() <= MAX_SOURCE_LEN,
    ensures
        match program_of(source@) {
            Ok(instructions) => res matches Ok(bytes) && bytes@ == encoded(instructions),
            Err(e) => res matches Err(err) && err@ == ChipoFault::ParserError(e),
        },
{
    let instructions = match parse(source.as_str()) {
        Ok(instructions) => instructions,
        Err(e) => {
            return Err(ChipoError::ParserError(e));
        },
    };
    let mut bytes: Vec<u8> = Vec::new();
    let mut k: usize = 0;
    while k < instructions.len()
        invariant
            k <= instructions@.len(),
            bytes@ == encoded(instructions@.take(k as int)),
        decreases instructions@.len() - k,
    {
        let b: u16 = instructions[k].to_bin();
        bytes.push((b / 0x100) as u8);
        bytes.push((b % 0x100) as u8);
        k += 1;
        assert(bytes@ =~= encoded(instructions@.take(k as int)));
    }
    assert(instructions@.take(k as int) =~= instructions@);
    Ok(bytes)
}

/// Disassembles a program: every two bytes as one line of assembly text
/// under a code header. A byte left over at the end is ignored.
pub fn reverse_parse(tokens: &[u8]) -> (res: Result<String, ChipoError>)
    ensures
        res matches Ok(text) && text@ == ".code\n"@ + listing(tokens@, tokens@.len() / 2),
{
    let mut out = String::from_str(".code\n");
    let count: usize = tokens.len() / 2;
    let mut i: usize = 0;
    while i < count
        invariant
            i <= count,
            count == tokens@.len() / 2,
            out@ == ".code\n"@ + listing(tokens@, i as nat),
        decreases count - i,
    {
        let val: u16 = tokens[i * 2] as u16 * 0x100 + tokens[i * 2 + 1] as u16;
        let value = match Instruction::from(val) {
            Ok(inst) => inst.to_asm(),
            Err(_) => Instruction::Raw(val).to_asm(),
        };
        if i > 0 {
            out.append("\n");
        }
        out.append("  ");
        out.append(value.as_str());
        i += 1;
        assert(out@ =~= ".code\n"@ + listing(tokens@, i as nat));
    }
    Ok(out)
}

} // verus!
