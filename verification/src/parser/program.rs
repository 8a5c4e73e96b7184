//! The passes over a program: the data section, the labels of the code
//! section, its instructions, and the sections themselves.

use vstd::prelude::*;
use vstd::slice::slice_subrange;
use vstd::string::*;
use crate::emu::instructions::{Addr, Instruction};
use crate::parser::line::{instruction_of, Parser};
use crate::parser::number::{literal_value, parse_number};
use crate::parser::{LineError, LineFault, ParserError, ParserFault};
use crate::text::{
    chars_of,
    find,
    find_char,
    lowercase,
    same_text,
    split,
    split_on,
    split_words,
    texts,
    total_len,
    trim,
    trim_end,
    trimmed,
    trimmed_end,
    words,
};

verus! {

/// The address of the first data word: behind the jump over the data.
pub const DATA_START: u32 = 0x202;

/// Numbered lines with their texts as sequences of characters.
pub open spec fn numbered(lines: Seq<(usize, &str)>) -> Seq<(usize, Seq<char>)> {
    Seq::new(lines.len(), |k: int| (lines[k].0, lines[k].1@))
}

/// The characters of all lines together.
pub open spec fn source_len(lines: Seq<(usize, Seq<char>)>) -> nat
    decreases lines.len(),
{
    if lines.len() == 0 {
        0
    } else {
        source_len(lines.drop_last()) + lines.last().1.len()
    }
}

/// What a pass over lines has reached: the symbol table, the address of
/// the next word, the instructions emitted, and the fault that stopped it
/// with the number of its line.
pub struct Pass {
    pub symbols: Map<Seq<char>, Addr>,
    pub cursor: int,
    pub emitted: Seq<Instruction>,
    pub error: Option<(usize, LineFault)>,
}

/// A result of assembling with the texts of its error as sequences of
/// characters.
pub open spec fn parser_result(res: Result<Vec<Instruction>, ParserError>) -> Result<
    Seq<Instruction>,
    ParserFault,
> {
    match res {
        Ok(instructions) => Ok(instructions@),
        Err(e) => Err(e@),
    }
}

/// The data words of the first `upto` tokens: each a literal of 16 bits.
pub open spec fn data_words(tokens: Seq<Seq<char>>, upto: nat) -> Result<
    Seq<Instruction>,
    LineFault,
>
    decreases upto,
{
    if upto == 0 {
        Ok(Seq::empty())
    } else {
        match data_words(tokens, (upto - 1) as nat) {
            Err(e) => Err(e),
            Ok(found) => match literal_value(tokens[upto - 1], 0xffff) {
                Some(v) => Ok(found.push(Instruction::Raw(v as u16))),
                None => Err(LineFault::ParseIntErr),
            },
        }
    }
}

/// A data entry: the name before the first colon, and behind it the
/// words, parted by white space. A line without a colon is no entry.
pub open spec fn data_entry(line: Seq<char>) -> Result<(Seq<char>, Seq<Instruction>), LineFault> {
    let colon = find(line, ':', 0);
    if colon >= line.len() {
        Err(LineFault::InvalidAddress(line))
    } else {
        let tokens = words(trimmed(line.subrange(colon + 1, line.len() as int)));
        match data_words(tokens, tokens.len()) {
            Ok(found) => Ok((line.subrange(0, colon), found)),
            Err(e) => Err(e),
        }
    }
}

/// Whether a line of the data section holds an entry: it is neither blank
/// nor a comment.
pub open spec fn is_data_line(line: Seq<char>) -> bool {
    trimmed(line).len() > 0 && trimmed(line)[0] != ';'
}

/// The data pass over the first `upto` lines. Each entry gets the address
/// that the words before it have reached, from 0x202 on. A name that the
/// table knows already is a fault at the line that repeats it; the pass
/// stops at the first fault.
pub open spec fn data_pass(
    lines: Seq<(usize, Seq<char>)>,
    symbols: Map<Seq<char>, Addr>,
    upto: nat,
) -> Pass
    decreases upto,
{
    if upto == 0 {
        Pass { symbols, cursor: 0x202, emitted: Seq::empty(), error: None }
    } else {
        let before = data_pass(lines, symbols, (upto - 1) as nat);
        let (number, line) = lines[upto - 1];
        if before.error is Some || !is_data_line(line) {
            before
        } else {
            match data_entry(line) {
                Err(e) => Pass { error: Some((number, e)), ..before },
                Ok((name, found)) => if before.symbols.contains_key(name) {
                    Pass {
                        symbols: before.symbols.insert(name, before.cursor as Addr),
                        error: Some((number, LineFault::DuplicateAddress(name))),
                        ..before
                    }
                } else {
                    Pass {
                        symbols: before.symbols.insert(name, before.cursor as Addr),
                        cursor: before.cursor + 2 * found.len(),
                        emitted: before.emitted + found,
                        error: None,
                    }
                },
            }
        }
    }
}

/// A pass that has stopped stays as it is.
pub proof fn lemma_data_pass_stops(
    lines: Seq<(usize, Seq<char>)>,
    symbols: Map<Seq<char>, Addr>,
    at: nat,
    upto: nat,
)
    requires
        at <= upto,
        data_pass(lines, symbols, at).error is Some,
    ensures
        data_pass(lines, symbols, upto) == data_pass(lines, symbols, at),
    decreases upto,
{
    if at < upto {
        lemma_data_pass_stops(lines, symbols, at, (upto - 1) as nat);
    }
}

/// Whether a text ends with a colon: whether it declares a label.
pub open spec fn ends_with_colon(t: Seq<char>) -> bool {
    t.len() > 0 && t.last() == ':'
}

/// The name that a label line declares: the trimmed line without its last
/// character.
pub open spec fn label_name(line: Seq<char>) -> Seq<char> {
    let t = trimmed(line);
    if t.len() > 0 {
        t.drop_last()
    } else {
        t
    }
}

/// The label pass over the first `upto` lines of the code section. Empty
/// lines count as nothing; a line that ends with a colon once the white
/// space at its end is gone declares a label at the cursor; every other
/// line moves the cursor by one instruction. A name that the table knows
/// already is a fault at the line that repeats it; the pass stops at the
/// first fault.
pub open spec fn label_pass(
    lines: Seq<(usize, Seq<char>)>,
    symbols: Map<Seq<char>, Addr>,
    cursor: int,
    upto: nat,
) -> Pass
    decreases upto,
{
    if upto == 0 {
        Pass { symbols, cursor, emitted: Seq::empty(), error: None }
    } else {
        let before = label_pass(lines, symbols, cursor, (upto - 1) as nat);
        let (number, line) = lines[upto - 1];
        if before.error is Some || line.len() == 0 {
            before
        } else if !ends_with_colon(trimmed_end(line)) {
            Pass { cursor: before.cursor + 2, ..before }
        } else {
            Pass {
                symbols: before.symbols.insert(label_name(line), before.cursor as Addr),
                error: if before.symbols.contains_key(label_name(line)) {
                    Some((number, LineFault::DuplicateAddress(label_name(line))))
                } else {
                    None
                },
                ..before
            }
        }
    }
}

/// The instruction pass over the first `upto` lines of the code section.
/// Blank lines and label lines emit nothing; every other line, trimmed and
/// in lower case, is read as an instruction at the cursor, which then
/// moves on by two. The pass stops at the first fault.
pub open spec fn emit_pass(
    lines: Seq<(usize, Seq<char>)>,
    symbols: Map<Seq<char>, Addr>,
    cursor: int,
    upto: nat,
) -> Pass
    decreases upto,
{
    if upto == 0 {
        Pass { symbols, cursor, emitted: Seq::empty(), error: None }
    } else {
        let before = emit_pass(lines, symbols, cursor, (upto - 1) as nat);
        let (number, line) = lines[upto - 1];
        let t = trimmed(line);
        if before.error is Some || ends_with_colon(t) || t.len() == 0 {
            before
        } else {
            match instruction_of(lowercase(t), symbols, before.cursor as u32) {
                Ok(instr) => Pass {
                    cursor: before.cursor + 2,
                    emitted: before.emitted.push(instr),
                    ..before
                },
                Err(e) => Pass { error: Some((number, e)), ..before },
            }
        }
    }
}

/// Both passes over the code section: the labels first, then, if no name
/// was declared twice, the instructions.
pub open spec fn code_pass(
    lines: Seq<(usize, Seq<char>)>,
    symbols: Map<Seq<char>, Addr>,
    cursor: int,
) -> Pass {
    let labels = label_pass(lines, symbols, cursor, lines.len());
    if labels.error is Some {
        Pass { symbols: labels.symbols, cursor, emitted: Seq::empty(), error: labels.error }
    } else {
        emit_pass(lines, labels.symbols, cursor, lines.len())
    }
}

/// What a pass gives: its instructions, or its fault at its line.
pub open spec fn pass_result(pass: Pass) -> Result<Seq<Instruction>, ParserFault> {
    match pass.error {
        Some((number, e)) => Err(ParserFault::LineErr { line_number: number, error: e }),
        None => Ok(pass.emitted),
    }
}

/// A label pass that has stopped stays as it is.
pub proof fn lemma_label_pass_stops(
    lines: Seq<(usize, Seq<char>)>,
    symbols: Map<Seq<char>, Addr>,
    cursor: int,
    at: nat,
    upto: nat,
)
    requires
        at <= upto,
        label_pass(lines, symbols, cursor, at).error is Some,
    ensures
        label_pass(lines, symbols, cursor, upto) == label_pass(lines, symbols, cursor, at),
    decreases upto,
{
    if at < upto {
        lemma_label_pass_stops(lines, symbols, cursor, at, (upto - 1) as nat);
    }
}

/// An instruction pass that has stopped stays as it is.
pub proof fn lemma_emit_pass_stops(
    lines: Seq<(usize, Seq<char>)>,
    symbols: Map<Seq<char>, Addr>,
    cursor: int,
    at: nat,
    upto: nat,
)
    requires
        at <= upto,
        emit_pass(lines, symbols, cursor, at).error is Some,
    ensures
        emit_pass(lines, symbols, cursor, upto) == emit_pass(lines, symbols, cursor, at),
    decreases upto,
{
    if at < upto {
        lemma_emit_pass_stops(lines, symbols, cursor, at, (upto - 1) as nat);
    }
}

/// Whether a line of the code section declares a label.
pub open spec fn declares_label(line: Seq<char>) -> bool {
    line.len() > 0 && ends_with_colon(trimmed_end(line))
}

/// Whether a line of the data section declares the name `name`.
pub open spec fn declares_data(line: Seq<char>, name: Seq<char>) -> bool {
    is_data_line(line) && (data_entry(line) matches Ok(entry) && entry.0 == name)
}

/// A label pass without a fault had none before, and knows every name
/// that it knew before.
pub proof fn lemma_label_pass_keeps(
    lines: Seq<(usize, Seq<char>)>,
    symbols: Map<Seq<char>, Addr>,
    cursor: int,
    at: nat,
    upto: nat,
    name: Seq<char>,
)
    requires
        at <= upto,
        label_pass(lines, symbols, cursor, upto).error is None,
    ensures
        label_pass(lines, symbols, cursor, at).error is None,
        label_pass(lines, symbols, cursor, at).symbols.contains_key(name) ==> label_pass(
            lines,
            symbols,
            cursor,
            upto,
        ).symbols.contains_key(name),
    decreases upto,
{
    if at < upto {
        lemma_label_pass_keeps(lines, symbols, cursor, at, (upto - 1) as nat, name);
    }
}

/// A label whose name is known when its line is reached is refused: the
/// pass ends with the fault of a name declared twice, at that line.
pub proof fn lemma_known_label_is_refused(
    lines: Seq<(usize, Seq<char>)>,
    symbols: Map<Seq<char>, Addr>,
    cursor: int,
    at: nat,
)
    requires
        at < lines.len(),
        declares_label(lines[at as int].1),
        label_pass(lines, symbols, cursor, at).error is None,
        label_pass(lines, symbols, cursor, at).symbols.contains_key(
            label_name(lines[at as int].1),
        ),
    ensures
        label_pass(lines, symbols, cursor, lines.len()).error == Some(
            (lines[at as int].0, LineFault::DuplicateAddress(label_name(lines[at as int].1))),
        ),
{
    lemma_label_pass_stops(lines, symbols, cursor, at + 1, lines.len());
}

/// A label declared twice in the code section is refused at the line of
/// the second declaration, unless the pass has stopped before that line.
pub proof fn lemma_duplicate_label(
    lines: Seq<(usize, Seq<char>)>,
    symbols: Map<Seq<char>, Addr>,
    cursor: int,
    first: nat,
    second: nat,
)
    requires
        first < second < lines.len(),
        declares_label(lines[first as int].1),
        declares_label(lines[second as int].1),
        label_name(lines[first as int].1) == label_name(lines[second as int].1),
        label_pass(lines, symbols, cursor, second).error is None,
    ensures
        label_pass(lines, symbols, cursor, lines.len()).error == Some(
            (
                lines[second as int].0,
                LineFault::DuplicateAddress(label_name(lines[second as int].1)),
            ),
        ),
{
    let name = label_name(lines[first as int].1);
    lemma_label_pass_keeps(lines, symbols, cursor, first + 1, second, name);
    lemma_label_pass_keeps(lines, symbols, cursor, first, first + 1, name);
    lemma_known_label_is_refused(lines, symbols, cursor, second);
}

/// A label of the code section that the data section has declared is
/// refused at the line of the label, unless the pass has stopped before
/// that line.
pub proof fn lemma_label_of_data_name(
    lines: Seq<(usize, Seq<char>)>,
    symbols: Map<Seq<char>, Addr>,
    cursor: int,
    at: nat,
)
    requires
        at < lines.len(),
        declares_label(lines[at as int].1),
        symbols.contains_key(label_name(lines[at as int].1)),
        label_pass(lines, symbols, cursor, at).error is None,
    ensures
        label_pass(lines, symbols, cursor, lines.len()).error == Some(
            (lines[at as int].0, LineFault::DuplicateAddress(label_name(lines[at as int].1))),
        ),
{
    lemma_label_pass_keeps(lines, symbols, cursor, 0, at, label_name(lines[at as int].1));
    lemma_known_label_is_refused(lines, symbols, cursor, at);
}

/// A data pass without a fault had none before, and knows every name
/// that it knew before.
pub proof fn lemma_data_pass_keeps(
    lines: Seq<(usize, Seq<char>)>,
    symbols: Map<Seq<char>, Addr>,
    at: nat,
    upto: nat,
    name: Seq<char>,
)
    requires
        at <= upto,
        data_pass(lines, symbols, upto).error is None,
    ensures
        data_pass(lines, symbols, at).error is None,
        data_pass(lines, symbols, at).symbols.contains_key(name) ==> data_pass(
            lines,
            symbols,
            upto,
        ).symbols.contains_key(name),
    decreases upto,
{
    if at < upto {
        lemma_data_pass_keeps(lines, symbols, at, (upto - 1) as nat, name);
    }
}

/// A name declared twice in the data section is refused at the line of
/// the second declaration, unless the pass has stopped before that line.
pub proof fn lemma_duplicate_data(
    lines: Seq<(usize, Seq<char>)>,
    symbols: Map<Seq<char>, Addr>,
    first: nat,
    second: nat,
    name: Seq<char>,
)
    requires
        first < second < lines.len(),
        declares_data(lines[first as int].1, name),
        declares_data(lines[second as int].1, name),
        data_pass(lines, symbols, second).error is None,
    ensures
        data_pass(lines, symbols, lines.len()).error == Some(
            (lines[second as int].0, LineFault::DuplicateAddress(name)),
        ),
{
    lemma_data_pass_keeps(lines, symbols, first + 1, second, name);
    lemma_data_pass_keeps(lines, symbols, first, first + 1, name);
    lemma_data_pass_stops(lines, symbols, second + 1, lines.len());
}

/// Whether a text ends with the character `c`.
pub fn ends_with_char(s: &str, c: char) -> (ends: bool)
    ensures
        ends == (s@.len() > 0 && s@.last() == c),
{
    let chars = chars_of(s);
    chars.len() > 0 && chars[chars.len() - 1] == c
}

/// The name that a label line declares.
pub fn label_of<'a>(line: &'a str) -> (name: &'a str)
    ensures
        name@ == label_name(line@),
{
    let t = trim(line);
    let len = t.unicode_len();
    if len > 0 {
        t.substring_char(0, len - 1)
    } else {
        t
    }
}

impl Parser {
    /// Reads a data entry: its name and its words.
    pub fn parse_data_instr<'a>(&self, instruction: &'a str) -> (res: Result<
        (&'a str, Vec<Instruction>),
        LineError,
    >)
        ensures
            match data_entry(instruction@) {
                Ok((name, found)) => res matches Ok(entry) && entry.0@ == name && entry.1@ == found,
                Err(e) => res matches Err(fault) && fault@ == e,
            },
            res matches Ok(entry) ==> entry.1@.len() <= instruction@.len(),
    {
        let chars = chars_of(instruction);
        let colon = find_char(&chars, ':', 0);
        if colon >= chars.len() {
            return Err(LineError::InvalidAddress(String::from_str(instruction)));
        }
        let name = instruction.substring_char(0, colon);
        let rest = trim(instruction.substring_char(colon + 1, chars.len()));
        let tokens = split_words(rest);
        let mut instr: Vec<Instruction> = Vec::new();
        let mut k: usize = 0;
        while k < tokens.len()
            invariant
                k <= tokens@.len(),
                instr@.len() == k,
                colon == find(instruction@, ':', 0),
                colon < instruction@.len(),
                name@ == instruction@.subrange(0, colon as int),
                texts(tokens@) == words(
                    trimmed(instruction@.subrange(colon + 1, instruction@.len() as int)),
                ),
                tokens@.len() <= instruction@.len(),
                data_words(texts(tokens@), k as nat) == Ok::<Seq<Instruction>, LineFault>(instr@),
            decreases tokens@.len() - k,
        {
            match parse_number::<u16>(tokens[k]) {
                Ok(val) => {
                    instr.push(Instruction::Raw(val));
                },
                Err(e) => {
                    assert(data_words(texts(tokens@), (k + 1) as nat) is Err);
                    proof {
                        lemma_data_words_stop(texts(tokens@), (k + 1) as nat, tokens@.len());
                    }
                    return Err(e);
                },
            }
            k += 1;
        }
        Ok((name, instr))
    }

    /// The data pass: reads the entries of the data section, gives each
    /// name its address and returns the jump over the data followed by the
    /// data words. The cursor is left behind the data.
    pub fn parse_data(&mut self, instructions: &[(usize, &str)]) -> (res: Result<
        Vec<Instruction>,
        ParserError,
    >)
        requires
            0x202 + 2 * source_len(numbered(instructions@)) <= u32::MAX,
        ensures
            ({
                let pass = data_pass(
                    numbered(instructions@),
                    old(self).symbols(),
                    instructions@.len(),
                );
                &&& final(self).symbols() == pass.symbols
                &&& match pass.error {
                    Some((number, e)) => {
                        &&& parser_result(res) == Err::<Seq<Instruction>, ParserFault>(
                            ParserFault::LineErr { line_number: number, error: e },
                        )
                        &&& final(self).cursor() == old(self).cursor()
                    },
                    None => {
                        &&& parser_result(res) == Ok::<Seq<Instruction>, ParserFault>(
                            seq![Instruction::GoTo(pass.cursor as Addr)] + pass.emitted,
                        )
                        &&& final(self).cursor() == pass.cursor
                        &&& pass.cursor <= 0x202 + 2 * source_len(numbered(instructions@))
                    },
                }
            }),
    {
        let ghost lines = numbered(instructions@);
        let ghost symbols = self.symbols();
        let mut offset: u32 = 0x202;
        let mut data_instructions: Vec<Instruction> = Vec::new();
        let mut k: usize = 0;
        while k < instructions.len()
            invariant
                k <= instructions@.len(),
                lines == numbered(instructions@),
                symbols == old(self).symbols(),
                0x202 + 2 * source_len(lines) <= u32::MAX,
                offset <= 0x202 + 2 * source_len(lines.take(k as int)),
                data_pass(lines, symbols, k as nat).error is None,
                data_pass(lines, symbols, k as nat).symbols == self.symbols(),
                data_pass(lines, symbols, k as nat).cursor == offset,
                data_pass(lines, symbols, k as nat).emitted == data_instructions@,
                self.cursor() == old(self).cursor(),
            decreases instructions@.len() - k,
        {
            let number: usize = instructions[k].0;
            let address: &str = instructions[k].1;
            let ghost before = data_pass(lines, symbols, k as nat);
            proof {
                assert(lines.take(k + 1).drop_last() =~= lines.take(k as int));
                lemma_source_len_take(lines, k + 1);
            }
            let t = trim(address);
            let chars = chars_of(t);
            assert(lines[k as int] == (number, address@));
            let ghost after = data_pass(lines, symbols, (k + 1) as nat);
            if chars.len() > 0 && chars[0] != ';' {
                match self.parse_data_instr(address) {
                    Err(err) => {
                        proof {
                            lemma_data_pass_stops(
                                lines,
                                symbols,
                                (k + 1) as nat,
                                instructions@.len(),
                            );
                        }
                        return Err(ParserError::line(number, err));
                    },
                    Ok((name, mut found)) => {
                        let previous = self.insert(name, offset);
                        if previous.is_some() {
                            proof {
                                lemma_data_pass_stops(
                                    lines,
                                    symbols,
                                    (k + 1) as nat,
                                    instructions@.len(),
                                );
                            }
                            return Err(
                                ParserError::line(
                                    number,
                                    LineError::DuplicateAddress(String::from_str(name)),
                                ),
                            );
                        }
                        offset = offset + 2 * (found.len() as u32);
                        data_instructions.append(&mut found);
                    },
                }
            }
            k += 1;
        }
        assert(lines.take(k as int) =~= lines);
        let mut first_instruction: Vec<Instruction> = Vec::new();
        first_instruction.push(Instruction::GoTo(offset));
        first_instruction.append(&mut data_instructions);
        self.set_position(offset);
        Ok(first_instruction)
    }

    /// The passes over the code section: the labels, then the
    /// instructions. The cursor is left behind the last instruction read.
    pub fn parse_code(&mut self, instructions: &[(usize, &str)]) -> (res: Result<
        Vec<Instruction>,
        ParserError,
    >)
        requires
            old(self).cursor() + 2 * instructions@.len() <= u32::MAX,
        ensures
            ({
                let pass = code_pass(
                    numbered(instructions@),
                    old(self).symbols(),
                    old(self).cursor() as int,
                );
                &&& final(self).symbols() == pass.symbols
                &&& final(self).cursor() == pass.cursor
                &&& parser_result(res) == pass_result(pass)
            }),
    {
        let ghost lines = numbered(instructions@);
        let ghost symbols = self.symbols();
        let start: u32 = self.position();
        let mut next: u32 = start;
        let mut k: usize = 0;
        while k < instructions.len()
            invariant
                k <= instructions@.len(),
                lines == numbered(instructions@),
                symbols == old(self).symbols(),
                start == old(self).cursor(),
                start + 2 * instructions@.len() <= u32::MAX,
                next <= start + 2 * k,
                self.cursor() == start,
                label_pass(lines, symbols, start as int, k as nat).error is None,
                label_pass(lines, symbols, start as int, k as nat).symbols == self.symbols(),
                label_pass(lines, symbols, start as int, k as nat).cursor == next,
            decreases instructions@.len() - k,
        {
            let number: usize = instructions[k].0;
            let line: &str = instructions[k].1;
            assert(lines[k as int] == (number, line@));
            if !line.is_empty() {
                if ends_with_char(trim_end(line), ':') {
                    let addr_name = label_of(line);
                    let previous = self.insert(addr_name, next);
                    if previous.is_some() {
                        proof {
                            lemma_label_pass_stops(
                                lines,
                                symbols,
                                start as int,
                                (k + 1) as nat,
                                instructions@.len(),
                            );
                        }
                        return Err(
                            ParserError::line(
                                number,
                                LineError::DuplicateAddress(String::from_str(addr_name)),
                            ),
                        );
                    }
                } else {
                    next = next + 2;
                }
            }
            k += 1;
        }
        let ghost known = self.symbols();
        let mut emitted: Vec<Instruction> = Vec::new();
        let mut k: usize = 0;
        while k < instructions.len()
            invariant
                k <= instructions@.len(),
                lines == numbered(instructions@),
                start + 2 * instructions@.len() <= u32::MAX,
                self.cursor() <= start + 2 * k,
                self.symbols() == known,
                symbols == old(self).symbols(),
                start == old(self).cursor(),
                label_pass(lines, symbols, start as int, lines.len()).error is None,
                label_pass(lines, symbols, start as int, lines.len()).symbols == known,
                emit_pass(lines, known, start as int, k as nat).error is None,
                emit_pass(lines, known, start as int, k as nat).symbols == known,
                emit_pass(lines, known, start as int, k as nat).cursor == self.cursor(),
                emit_pass(lines, known, start as int, k as nat).emitted == emitted@,
            decreases instructions@.len() - k,
        {
            let number: usize = instructions[k].0;
            let line: &str = instructions[k].1;
            assert(lines[k as int] == (number, line@));
            let t = trim(line);
            if !ends_with_char(t, ':') && !t.is_empty() {
                match self.parse_instr(t) {
                    Ok(instr) => {
                        emitted.push(instr);
                    },
                    Err(err) => {
                        proof {
                            lemma_emit_pass_stops(
                                lines,
                                known,
                                start as int,
                                (k + 1) as nat,
                                instructions@.len(),
                            );
                        }
                        return Err(ParserError::line(number, err));
                    },
                }
            }
            k += 1;
        }
        Ok(emitted)
    }
}

/// Data words that have met a fault stay a fault.
proof fn lemma_data_words_stop(tokens: Seq<Seq<char>>, at: nat, upto: nat)
    requires
        at <= upto,
        data_words(tokens, at) is Err,
    ensures
        data_words(tokens, upto) == data_words(tokens, at),
    decreases upto,
{
    if at < upto {
        lemma_data_words_stop(tokens, at, (upto - 1) as nat);
    }
}

/// The first lines are no longer than all of them.
pub proof fn lemma_source_len_take(lines: Seq<(usize, Seq<char>)>, k: int)
    requires
        0 <= k <= lines.len(),
    ensures
        source_len(lines.take(k)) <= source_len(lines),
    decreases lines.len(),
{
    if k == lines.len() {
        assert(lines.take(k) =~= lines);
    } else {
        assert(lines.drop_last().take(k) =~= lines.take(k));
        lemma_source_len_take(lines.drop_last(), k);
    }
}

/// The greatest number of characters of a program that can be assembled:
/// with it every address fits 32 bits.
pub const MAX_SOURCE_LEN: usize = 0x3FFF_FF00;

/// What is left of a raw line: the line trimmed, up to its first
/// semicolon. A line that starts with a semicolon is dropped.
pub open spec fn clean_line(raw: Seq<char>) -> Option<Seq<char>> {
    let t = trimmed(raw);
    let comment = find(t, ';', 0);
    if comment >= t.len() {
        Some(t)
    } else if comment == 0 {
        None
    } else {
        Some(t.subrange(0, comment))
    }
}

/// The lines that the first `upto` raw lines leave, each with its number,
/// counted from one over all raw lines.
pub open spec fn source_lines(pieces: Seq<Seq<char>>, upto: nat) -> Seq<(usize, Seq<char>)>
    decreases upto,
{
    if upto == 0 {
        Seq::empty()
    } else {
        let before = source_lines(pieces, (upto - 1) as nat);
        match clean_line(pieces[upto - 1]) {
            Some(line) => before.push((upto as usize, line)),
            None => before,
        }
    }
}

/// The section that a line introduces: what follows the dot that the
/// trimmed line starts with.
pub open spec fn section_of(line: Seq<char>) -> Option<Seq<char>> {
    let t = trimmed(line);
    if t.len() > 0 && t[0] == '.' {
        Some(t.skip(1))
    } else {
        None
    }
}

/// The last of the first `upto` lines that introduces the section `name`.
pub open spec fn last_section(lines: Seq<(usize, Seq<char>)>, name: Seq<char>, upto: int) -> Option<
    int,
>
    decreases upto,
{
    if upto <= 0 {
        None
    } else if section_of(lines[upto - 1].1) == Some(name) {
        Some(upto - 1)
    } else {
        last_section(lines, name, upto - 1)
    }
}

/// Whether a line introduces a section that is neither `code` nor `data`.
pub open spec fn is_unknown_section(line: Seq<char>) -> bool {
    section_of(line) matches Some(name) && name != "code"@ && name != "data"@
}

/// The first line from `from` on that introduces an unknown section.
pub open spec fn first_unknown_section(lines: Seq<(usize, Seq<char>)>, from: int) -> Option<int>
    decreases lines.len() - from,
{
    if from < 0 || from >= lines.len() {
        None
    } else if is_unknown_section(lines[from].1) {
        Some(from)
    } else {
        first_unknown_section(lines, from + 1)
    }
}

/// The lines of the data section: those between the line that introduces
/// it and the line that introduces the code; none where the data section
/// is introduced behind the code.
pub open spec fn data_lines(lines: Seq<(usize, Seq<char>)>, data_start: int, code_start: int) -> Seq<
    (usize, Seq<char>),
> {
    if data_start + 1 <= code_start {
        lines.subrange(data_start + 1, code_start)
    } else {
        Seq::empty()
    }
}

/// The instructions of a program given as its lines. A program without a
/// code section is refused, then one with a section other than code and
/// data, at the first such line. Where several lines introduce the same
/// section the last counts. The data section, where there is one, is
/// passed first and gives the jump over the data and the data words; the
/// code section follows from the line behind its introduction to the end.
pub open spec fn assemble(lines: Seq<(usize, Seq<char>)>) -> Result<Seq<Instruction>, ParserFault> {
    match last_section(lines, "code"@, lines.len() as int) {
        None => Err(ParserFault::NoCodeSection),
        Some(code_start) => match first_unknown_section(lines, 0) {
            Some(at) => Err(
                ParserFault::LineErr {
                    line_number: lines[at].0,
                    error: LineFault::UnknownSection(section_of(lines[at].1)->0),
                },
            ),
            None => {
                let code_lines = lines.subrange(code_start + 1, lines.len() as int);
                match last_section(lines, "data"@, lines.len() as int) {
                    None => pass_result(code_pass(code_lines, Map::empty(), 0x200)),
                    Some(data_start) => {
                        let entries = data_lines(lines, data_start, code_start);
                        let data = data_pass(entries, Map::empty(), entries.len());
                        match data.error {
                            Some((number, e)) => Err(
                                ParserFault::LineErr { line_number: number, error: e },
                            ),
                            None => match pass_result(
                                code_pass(code_lines, data.symbols, data.cursor),
                            ) {
                                Ok(code) => Ok(
                                    seq![Instruction::GoTo(data.cursor as Addr)] + data.emitted
                                        + code,
                                ),
                                Err(e) => Err(e),
                            },
                        }
                    },
                }
            },
        },
    }
}

/// The instructions of a program given as its text: the text is trimmed
/// and parted into lines, which are numbered from one, and the lines that
/// remain are assembled.
pub open spec fn program_of(text: Seq<char>) -> Result<Seq<Instruction>, ParserFault> {
    let pieces = split(trimmed(text), '\n');
    assemble(source_lines(pieces, pieces.len()))
}

/// The lines from some line to the end are no longer than all lines.
proof fn lemma_source_len_suffix(lines: Seq<(usize, Seq<char>)>, from: int)
    requires
        0 <= from <= lines.len(),
    ensures
        source_len(lines.subrange(from, lines.len() as int)) <= source_len(lines),
    decreases lines.len(),
{
    if from < lines.len() {
        assert(lines.subrange(from, lines.len() as int).drop_last() =~= lines.drop_last().subrange(
            from,
            lines.len() - 1,
        ));
        lemma_source_len_suffix(lines.drop_last(), from);
    } else {
        assert(lines.subrange(from, lines.len() as int) =~= Seq::<(usize, Seq<char>)>::empty());
    }
}

/// Some lines in a row are no longer than all lines.
pub proof fn lemma_source_len_subrange(lines: Seq<(usize, Seq<char>)>, from: int, to: int)
    requires
        0 <= from <= to <= lines.len(),
    ensures
        source_len(lines.subrange(from, to)) <= source_len(lines),
{
    assert(lines.take(to).subrange(from, to) =~= lines.subrange(from, to));
    lemma_source_len_suffix(lines.take(to), from);
    lemma_source_len_take(lines, to);
}

/// The section that a line introduces.
pub fn section_name<'a>(line: &'a str) -> (name: Option<&'a str>)
    ensures
        match section_of(line@) {
            Some(n) => name matches Some(found) && found@ == n,
            None => name is None,
        },
{
    let t = trim(line);
    let chars = chars_of(t);
    if chars.len() > 0 && chars[0] == '.' {
        let name = t.substring_char(1, chars.len());
        assert(name@ =~= t@.skip(1));
        Some(name)
    } else {
        None
    }
}

/// Whether a line introduces the section `name`.
fn introduces(line: &str, name: &str) -> (yes: bool)
    ensures
        yes == (section_of(line@) == Some(name@)),
{
    match section_name(line) {
        Some(found) => same_text(found, name),
        None => false,
    }
}

/// The last line that introduces the section `name`.
fn find_section(lines: &Vec<(usize, &str)>, name: &str) -> (at: Option<usize>)
    ensures
        match last_section(numbered(lines@), name@, lines@.len() as int) {
            Some(i) => at == Some(i as usize) && 0 <= i < lines@.len(),
            None => at is None,
        },
{
    let mut k: usize = lines.len();
    while k > 0
        invariant
            k <= lines@.len(),
            last_section(numbered(lines@), name@, lines@.len() as int) == last_section(
                numbered(lines@),
                name@,
                k as int,
            ),
        decreases k,
    {
        k -= 1;
        if introduces(lines[k].1, name) {
            return Some(k);
        }
    }
    None
}

/// The first line that introduces a section other than code and data.
fn find_unknown_section(lines: &Vec<(usize, &str)>) -> (at: Option<usize>)
    ensures
        match first_unknown_section(numbered(lines@), 0) {
            Some(i) => at == Some(i as usize) && 0 <= i < lines@.len() && is_unknown_section(
                lines@[i].1@,
            ),
            None => at is None,
        },
{
    let mut k: usize = 0;
    while k < lines.len()
        invariant
            k <= lines@.len(),
            first_unknown_section(numbered(lines@), 0) == first_unknown_section(
                numbered(lines@),
                k as int,
            ),
        decreases lines@.len() - k,
    {
        if let Some(name) = section_name(lines[k].1) {
            if !same_text(name, "code") && !same_text(name, "data") {
                return Some(k);
            }
        }
        k += 1;
    }
    None
}

/// The lines of a text: trimmed, cut at the first semicolon and numbered
/// from one; lines that are only a comment are left out.
fn lines_of<'a>(program: &'a str) -> (lines: Vec<(usize, &'a str)>)
    requires
        program@.len() < usize::MAX,
    ensures
        numbered(lines@) == source_lines(
            split(program@, '\n'),
            split(program@, '\n').len(),
        ),
        lines@.len() <= program@.len() + 1,
        source_len(numbered(lines@)) <= program@.len(),
{
    let pieces = split_on(program, '\n');
    let ghost raw = texts(pieces@);
    let mut lines: Vec<(usize, &'a str)> = Vec::new();
    let mut k: usize = 0;
    while k < pieces.len()
        invariant
            k <= pieces@.len(),
            raw == texts(pieces@),
            pieces@.len() <= program@.len() + 1,
            program@.len() < usize::MAX,
            lines@.len() <= k,
            numbered(lines@) == source_lines(raw, k as nat),
            source_len(numbered(lines@)) <= total_len(raw.take(k as int)),
        decreases pieces@.len() - k,
    {
        let ghost before = lines@;
        let t = trim(pieces[k]);
        let chars = chars_of(t);
        let comment = find_char(&chars, ';', 0);
        proof {
            assert(raw.take(k + 1).drop_last() =~= raw.take(k as int));
            assert(raw[k as int] == pieces@[k as int]@);
        }
        if comment >= chars.len() {
            lines.push((k + 1, t));
            assert(numbered(lines@) =~= numbered(before).push(((k + 1) as usize, t@)));
            assert(numbered(lines@).drop_last() =~= numbered(before));
        } else if comment > 0 {
            let kept = t.substring_char(0, comment);
            lines.push((k + 1, kept));
            assert(numbered(lines@) =~= numbered(before).push(((k + 1) as usize, kept@)));
            assert(numbered(lines@).drop_last() =~= numbered(before));
        }
        k += 1;
    }
    assert(raw.take(k as int) =~= raw);
    lines
}

/// Assembles a program: from its text to its instructions, the jump over
/// the data and the data words first where there is a data section.
pub fn parse(program: &str) -> (res: Result<Vec<Instruction>, ParserError>)
    requires
        program@.len() <= MAX_SOURCE_LEN,
    ensures
        parser_result(res) == program_of(program@),
{
    let program = trim(program);
    let lines = lines_of(program);
    let ghost all = numbered(lines@);
    let code_section_start = match find_section(&lines, "code") {
        Some(index) => index,
        None => {
            return Err(ParserError::NoCodeSection);
        },
    };
    if let Some(at) = find_unknown_section(&lines) {
        assert(all[at as int] == (lines@[at as int].0, lines@[at as int].1@));
        let name = match section_name(lines[at].1) {
            Some(name) => name,
            None => "",
        };
        return Err(
            ParserError::line(lines[at].0, LineError::UnknownSection(String::from_str(name))),
        );
    }
    let mut parser = Parser::default();
    let mut data_section_instructions: Vec<Instruction> = match find_section(&lines, "data") {
        Some(data_section_start) => {
            let data_section_lines = if data_section_start + 1 <= code_section_start {
                slice_subrange(lines.as_slice(), data_section_start + 1, code_section_start)
            } else {
                slice_subrange(lines.as_slice(), 0, 0)
            };
            proof {
                assert(numbered(data_section_lines@) =~= data_lines(
                    all,
                    data_section_start as int,
                    code_section_start as int,
                ));
                if data_section_start + 1 <= code_section_start {
                    lemma_source_len_subrange(
                        all,
                        data_section_start + 1,
                        code_section_start as int,
                    );
                }
            }
            match parser.parse_data(data_section_lines) {
                Ok(instructions) => instructions,
                Err(e) => {
                    return Err(e);
                },
            }
        },
        None => Vec::new(),
    };
    let code_section_lines = slice_subrange(
        lines.as_slice(),
        code_section_start + 1,
        lines.len(),
    );
    assert(numbered(code_section_lines@) =~= all.subrange(
        code_section_start + 1,
        all.len() as int,
    ));
    let mut code_section_instructions = match parser.parse_code(code_section_lines) {
        Ok(instructions) => instructions,
        Err(e) => {
            return Err(e);
        },
    };
    data_section_instructions.append(&mut code_section_instructions);
    Ok(data_section_instructions)
}

} // verus!
