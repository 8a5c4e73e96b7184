use chipo::emu::Instruction;
use chipo::parser::line::CODE_START;
use chipo::parser::{
    assert_num_args, parse, parse_number, parse_register, LineError, Parser, ParserError,
};

#[test]
fn parser_test_no_code_section() -> std::result::Result<(), String> {
    match parse(
        r#"
.data
; data section
        "#,
    ) {
        Err(ParserError::NoCodeSection) => Ok(()),
        other => Err(format!("expected error NoCodeSection but got {:?}", other)),
    }
}

#[test]
fn parser_test_unknown_code_section() -> std::result::Result<(), String> {
    match parse(
        r#"
.code
; code section
.other_weird_section
; should not be here
            "#,
    ) {
        Err(ParserError::LineErr {
            line_number: _,
            error: LineError::UnknownSection(unkown_section),
        }) => {
            if unkown_section == "other_weird_section" {
                Ok(())
            } else {
                Err(format!("{} should be other_weird_section", unkown_section))
            }
        }
        other => Err(format!("expected error UnknownSection but got {:?}", other)),
    }
}

#[test]
fn parser_test_parse_addr_invalid() -> std::result::Result<(), String> {
    match parse(
        r#"
.code
start:
    jp unkown
            "#,
    ) {
        Err(ParserError::LineErr {
            line_number: _,
            error: LineError::InvalidAddress(symbol),
        }) => {
            if symbol == "unkown" {
                Ok(())
            } else {
                Err(format!("{} should be unknown", symbol))
            }
        }
        other => Err(format!("expected error InvalidAddress but got {:?}", other)),
    }
}

#[test]
fn parser_test_parse_addr_symbol() -> std::result::Result<(), String> {
    let symbols = parse(
        r#"
.code
start:
    jp addr
    call addr
    ld v0, 12

addr:
    jp start
            "#,
    )
    .map_err(|e| e.to_string())?;

    assert_eq!(symbols[0], Instruction::GoTo(0x206));
    assert_eq!(symbols[1], Instruction::Call(0x206)); // Calls at -2
    assert_eq!(*symbols.last().unwrap(), Instruction::GoTo(0x200));
    Ok(())
}

#[test]
fn parser_test_parse_addr_relative() -> std::result::Result<(), String> {
    let symbols = parse(
        r#"
.code
start:
    jp 2
    ret
    jp -1
            "#,
    )
    .map_err(|e| e.to_string())?;

    assert_eq!(symbols[0], Instruction::GoTo(0x204));
    assert_eq!(*symbols.last().unwrap(), Instruction::GoTo(0x202));
    Ok(())
}

#[test]
fn parser_test_parse_data_section() -> std::result::Result<(), String> {
    let symbols = parse(
        r#"
.data
addr: 0x1234

.code
start:
    jp addr
            "#,
    )
    .map_err(|e| e.to_string())?;

    assert_eq!(symbols[0], Instruction::GoTo(0x204)); // Initial jump
    assert_eq!(symbols[1], Instruction::Raw(0x1234)); // Raw data
    assert_eq!(symbols[2], Instruction::GoTo(0x202)); // Jump to addr
    Ok(())
}

fn test_compile(code: &str, inst: Instruction) -> std::result::Result<(), String> {
    let mut parser = Parser::default();
    let compiled = parser.parse_code(&[(1, code)]).unwrap();
    if compiled[0] == inst {
        Ok(())
    } else {
        Err(format!(
            "error: expected '{}', but got {:?}",
            code, compiled
        ))
    }
}

fn test_compile_to_bin(code: &str, val: u16) -> std::result::Result<(), String> {
    let mut parser = Parser::default();
    let compiled = parser.parse_code(&[(1, code)]).unwrap()[0].to_bin();
    if compiled == val {
        Ok(())
    } else {
        Err(format!(
            "error: expected 0x{:4X}, but got 0x{:4X} for {}",
            val, compiled, code
        ))
    }
}

#[test]
fn parser_test_from_asm() -> std::result::Result<(), String> {
    test_compile("DRW V0, V1, 2", Instruction::Disp(0, 1, 2))?;
    test_compile("RET", Instruction::Return)?;
    test_compile("CLS", Instruction::DisplayClear)?;
    test_compile("LD V0, 12", Instruction::SetVal(0, 12))?;
    test_compile("ADD I, V2", Instruction::AddToI(2))?;
    test_compile("ADD V1, 12", Instruction::Add(1, 12))?;
    test_compile("LD V4, K", Instruction::GetKeyOp(4))?;
    test_compile("LD V0, 0xFF", Instruction::SetVal(0, 0xFF))?;

    Ok(())
}

#[test]
fn parser_test_from_asm_to_bin() -> std::result::Result<(), String> {
    test_compile_to_bin("ADD I, V2", 0xF21E)?;
    test_compile_to_bin("ADD V4, 1", 0x7401)?;
    test_compile_to_bin("DRW V1, V2, 5", 0xD125)?;
    test_compile_to_bin("LD [I], V1", 0xF155)?;
    test_compile_to_bin("LD V0, [I]", 0xF065)?;
    test_compile_to_bin("LD B, V3", 0xF333)?;
    test_compile_to_bin("CLS", 0x00E0)?;

    Ok(())
}

#[test]
fn parser_test_parse_register_fail() {
    let expected: std::result::Result<usize, LineError> =
        Err(LineError::RegisterErr("vff".to_string()));
    assert_eq!(parse_register("vff"), expected);
    let expected: std::result::Result<usize, LineError> =
        Err(LineError::RegisterErr("v10".to_string()));
    assert_eq!(parse_register("v10"), expected);
    let expected: std::result::Result<usize, LineError> =
        Err(LineError::RegisterErr("123".to_string()));
    assert_eq!(parse_register("123"), expected);
}

#[test]
fn parser_test_parse_register_success() {
    let expected: std::result::Result<usize, LineError> = Ok(3);
    assert_eq!(parse_register("v3"), expected);
    let expected: std::result::Result<usize, LineError> = Ok(0xF);
    assert_eq!(parse_register("vf"), expected);
}

#[test]
fn parser_test_parse_number() {
    let expected: std::result::Result<u8, LineError> = Ok(3);
    assert_eq!(parse_number("3"), expected);
    let expected: std::result::Result<u8, LineError> = Ok(0xF);
    assert_eq!(parse_number("0x0F"), expected);
}

#[test]
fn parser_test_parse_number_fail() {
    assert!(parse_number::<u8>("v3").is_err());
    assert!(parse_number::<u8>("0xFFF").is_err()); // Overflow
    assert!(parse_number::<u16>("0xgF").is_err());
}

#[test]
fn test_error_line_number() {
    let res = parse(
        r#"
.code

    ld v0, vkw

            "#,
    );
    assert_eq!(
        res,
        Err(ParserError::LineErr {
            line_number: 3,
            error: LineError::RegisterErr("vkw".to_string()),
        })
    );
    let res = parse(
        r#"
.data


x: 0xffff
x: 0xffff

.code


            "#,
    );
    assert_eq!(
        res,
        Err(ParserError::LineErr {
            line_number: 5,
            error: LineError::DuplicateAddress("x".to_string()),
        })
    );
    let res = parse(
        r#"
.data


x: 0xffff

.code

x:

            "#,
    );
    assert_eq!(
        res,
        Err(ParserError::LineErr {
            line_number: 8,
            error: LineError::DuplicateAddress("x".to_string()),
        })
    );
}

fn line_error(text: &str) -> (usize, LineError) {
    match parse(text) {
        Err(ParserError::LineErr { line_number, error }) => (line_number, error),
        other => panic!("expected a line error but got {:?}", other),
    }
}

#[test]
fn numbers_follow_the_standard_integer_parser() {
    for text in [
        "0", "7", "255", "256", "+5", "-5", "+", "", "0x", "0x+F", "0x-1", "0xff", "0xFF",
        "0XFF", "00000000000000000000255", "0x000000000000000100", " 5", "5 ", "1_0", "ff",
        "4294967295", "4294967296", "99999999999999999999999999", "0x10000", "0xffff", "٣",
    ] {
        let plain = match text.strip_prefix("0x") {
            Some(digits) => u8::from_str_radix(digits, 16).ok(),
            None => text.parse::<u8>().ok(),
        };
        assert_eq!(parse_number::<u8>(text).ok(), plain, "u8 of {:?}", text);
        let plain = match text.strip_prefix("0x") {
            Some(digits) => u16::from_str_radix(digits, 16).ok(),
            None => text.parse::<u16>().ok(),
        };
        assert_eq!(parse_number::<u16>(text).ok(), plain, "u16 of {:?}", text);
        let plain = match text.strip_prefix("0x") {
            Some(digits) => u32::from_str_radix(digits, 16).ok(),
            None => text.parse::<u32>().ok(),
        };
        assert_eq!(parse_number::<u32>(text).ok(), plain, "u32 of {:?}", text);
    }
    assert_eq!(parse_number::<u8>("x"), Err(LineError::ParseIntErr));
}

#[test]
fn registers_are_v_and_one_hex_digit() {
    assert_eq!(parse_register("vA"), Ok(10));
    assert_eq!(parse_register("v0"), Ok(0));
    for text in ["", "v", "V3", "vg", "v+", "v-", "3v", "vé", " v3"] {
        assert_eq!(
            parse_register(text),
            Err(LineError::RegisterErr(text.to_string()))
        );
    }
}

#[test]
fn operand_count_is_held_against_the_mnemonic() {
    assert_eq!(assert_num_args(2, 2), Ok(()));
    assert_eq!(
        assert_num_args(2, 3),
        Err(LineError::WrongNumberOfArguments(2, 3))
    );
    assert_eq!(
        line_error(".code\nret v0"),
        (2, LineError::WrongNumberOfArguments(0, 1))
    );
    assert_eq!(
        line_error(".code\ndrw v0, v1"),
        (2, LineError::WrongNumberOfArguments(3, 2))
    );
    assert_eq!(
        line_error(".code\njp v0, 1, 2"),
        (2, LineError::WrongNumberOfArguments(1, 3))
    );
    assert_eq!(
        line_error(".code\nld v0"),
        (2, LineError::WrongNumberOfArguments(2, 1))
    );
}

#[test]
fn each_line_error_has_an_input() {
    assert_eq!(
        line_error(".code\njp v1, 2"),
        (2, LineError::WrongJumpRegister)
    );
    assert_eq!(
        line_error(".code\n.init\nret"),
        (2, LineError::UnknownSection("init".to_string()))
    );
    assert_eq!(
        line_error(".code\nnop"),
        (2, LineError::InstructionErr("nop".to_string()))
    );
    assert_eq!(
        line_error(".code\nld\tv0, 1"),
        (2, LineError::InstructionErr("ld\tv0,".to_string()))
    );
    assert_eq!(
        line_error(".code\nshr 3"),
        (2, LineError::RegisterErr("3".to_string()))
    );
    assert_eq!(line_error(".code\nld v0, 256"), (2, LineError::ParseIntErr));
    assert_eq!(
        line_error(".data\nx 1\n\n.code\nret"),
        (2, LineError::InvalidAddress("x 1".to_string()))
    );
    assert_eq!(
        line_error(".data\nx: 1 2 z\n\n.code\nret"),
        (2, LineError::ParseIntErr)
    );
    assert_eq!(
        line_error(".code\na:\nret\na:"),
        (4, LineError::DuplicateAddress("a".to_string()))
    );
    assert_eq!(parse("ret"), Err(ParserError::NoCodeSection));
}

#[test]
fn unknown_section_is_reported_at_its_line_with_data_too() {
    assert_eq!(
        line_error("; header\n.data\nx: 1\n\n.code\nret\n  .bss ; nothing"),
        (7, LineError::UnknownSection("bss".to_string()))
    );
}

#[test]
fn every_mnemonic_is_read() {
    let text = ".code\ncls\nret\njp 0\njp v0, 0\ncall 0\nse v1, 2\nse v1, v2\nsne v1, 2\n\
                sne v1, v2\nld v1, 2\nld v1, v2\nld i, 0x123\nld v1, dt\nld v1, k\nld dt, v1\n\
                ld st, v1\nld f, v1\nld b, v1\nld [i], v1\nld v1, [i]\nadd v1, 2\nadd v1, v2\n\
                add i, v1\nor v1, v2\nand v1, v2\nxor v1, v2\nsub v1, v2\nshr v1\nsubn v1, v2\n\
                shl v1\nrnd v1, 2\ndrw v1, v2, 3\nskp v1\nsknp v1";
    assert_eq!(
        parse(text),
        Ok(vec![
            Instruction::DisplayClear,
            Instruction::Return,
            Instruction::GoTo(0x204),
            Instruction::Jump(0x206),
            Instruction::Call(0x208),
            Instruction::IfEq(1, 2),
            Instruction::IfEqRg(1, 2),
            Instruction::IfNeq(1, 2),
            Instruction::IfNeqRg(1, 2),
            Instruction::SetVal(1, 2),
            Instruction::SetRg(1, 2),
            Instruction::SetAddr(0x123),
            Instruction::GetTimer(1),
            Instruction::GetKeyOp(1),
            Instruction::SetTimer(1),
            Instruction::SetSoundTimer(1),
            Instruction::FontLoad(1),
            Instruction::BCD(1),
            Instruction::MemDump(1),
            Instruction::MemLoad(1),
            Instruction::Add(1, 2),
            Instruction::AddRg(1, 2),
            Instruction::AddToI(1),
            Instruction::Or(1, 2),
            Instruction::And(1, 2),
            Instruction::Xor(1, 2),
            Instruction::Sub(1, 2),
            Instruction::RightShift(1),
            Instruction::SubSelf(1, 2),
            Instruction::LeftShift(1),
            Instruction::Rand(1, 2),
            Instruction::Disp(1, 2, 3),
            Instruction::KeyOpEq(1),
            Instruction::KeyOpNeq(1),
        ])
    );
}

#[test]
fn relative_address_counts_instructions() {
    // the jump stands at 0x204: two instructions on is 0x208
    assert_eq!(
        parse(".code\nret\nret\njp 2\nret\nret"),
        Ok(vec![
            Instruction::Return,
            Instruction::Return,
            Instruction::GoTo(0x208),
            Instruction::Return,
            Instruction::Return,
        ])
    );
    assert_eq!(
        parse(".code\nld i, -1\ncall 0x10"),
        Ok(vec![Instruction::SetAddr(0x1FE), Instruction::Call(0x222)])
    );
}

#[test]
fn address_that_cannot_be_held_is_invalid() {
    assert_eq!(
        line_error(".code\njp -0x101"),
        (2, LineError::InvalidAddress("-0x101".to_string()))
    );
    assert_eq!(
        parse(".code\njp -0x100"),
        Err(ParserError::LineErr {
            line_number: 2,
            error: LineError::InvalidAddress("-0x100".to_string()),
        })
    );
    assert_eq!(parse(".code\njp -256"), Ok(vec![Instruction::GoTo(0)]));
    assert_eq!(
        line_error(".code\njp -257"),
        (2, LineError::InvalidAddress("-257".to_string()))
    );
    assert_eq!(
        parse(".code\njp 2147483391"),
        Ok(vec![Instruction::GoTo(0xFFFF_FFFE)])
    );
    assert_eq!(
        line_error(".code\njp 2147483392"),
        (2, LineError::InvalidAddress("2147483392".to_string()))
    );
    assert_eq!(
        line_error(".code\njp 2147483647"),
        (2, LineError::InvalidAddress("2147483647".to_string()))
    );
    assert_eq!(
        line_error(".code\njp 2147483648"),
        (2, LineError::InvalidAddress("2147483648".to_string()))
    );
}

#[test]
fn labels_keep_their_case_and_operands_lose_it() {
    assert_eq!(
        parse(".code\nloop:\nJP LOOP"),
        Ok(vec![Instruction::GoTo(0x200)])
    );
    assert_eq!(
        line_error(".code\nLoop:\njp Loop"),
        (3, LineError::InvalidAddress("loop".to_string()))
    );
}

#[test]
fn data_words_move_the_code() {
    let text = ".data\na: 1 0x2\tb\nb: 0xFFFF\n\n.code\nstart:\nld i, b\njp a\njp start";
    assert_eq!(
        line_error(text),
        (2, LineError::ParseIntErr)
    );
    let text = ".data\na: 1 0x2\t3\nb: 0xFFFF\nc:\n\n.code\nstart:\nld i, b\njp a\njp c\njp start";
    assert_eq!(
        parse(text),
        Ok(vec![
            Instruction::GoTo(0x20A),
            Instruction::Raw(1),
            Instruction::Raw(2),
            Instruction::Raw(3),
            Instruction::Raw(0xFFFF),
            Instruction::SetAddr(0x208),
            Instruction::GoTo(0x202),
            Instruction::GoTo(0x20A),
            Instruction::GoTo(0x20A),
        ])
    );
}

#[test]
fn data_entry_just_before_code_is_kept() {
    assert_eq!(
        parse(".data\nx: 7\n.code\njp x"),
        Ok(vec![
            Instruction::GoTo(0x204),
            Instruction::Raw(7),
            Instruction::GoTo(0x202),
        ])
    );
    assert_eq!(
        parse(".data\n.code\nret"),
        Ok(vec![Instruction::GoTo(0x202), Instruction::Return])
    );
}

#[test]
fn data_behind_code_is_no_data_section() {
    assert_eq!(
        line_error(".code\nret\n.data\nx: 1"),
        (3, LineError::InstructionErr(".data".to_string()))
    );
}

#[test]
fn comments_and_blank_lines_keep_the_numbering() {
    let text = "\n\n ; first\n.code ; the code\n\n  ld v0, 1 ; one\n; only a comment\n  bad";
    assert_eq!(
        line_error(text),
        (6, LineError::InstructionErr("bad".to_string()))
    );
}

#[test]
fn last_code_section_counts() {
    assert_eq!(
        line_error(".code\ncls\n.code\nret\nfoo"),
        (5, LineError::InstructionErr("foo".to_string()))
    );
    assert_eq!(parse(".code\nfoo\n.code\nret"), Ok(vec![Instruction::Return]));
}

#[test]
fn parser_passes_can_be_called_apart() {
    let mut parser = Parser::default();
    assert_eq!(parser.position(), CODE_START);
    assert_eq!(
        parser.parse_data(&[(4, "  "), (5, "; note"), (6, "x: 1 2"), (7, "y: 3")]),
        Ok(vec![
            Instruction::GoTo(0x208),
            Instruction::Raw(1),
            Instruction::Raw(2),
            Instruction::Raw(3),
        ])
    );
    assert_eq!(parser.position(), 0x208);
    assert_eq!(parser.lookup("x"), Some(0x202));
    assert_eq!(parser.lookup("y"), Some(0x206));
    assert_eq!(parser.lookup("z"), None);
    assert_eq!(
        parser.parse_code(&[(9, "z:"), (10, "jp y"), (11, ""), (12, "  w:  "), (13, "jp w")]),
        Ok(vec![Instruction::GoTo(0x206), Instruction::GoTo(0x20A)])
    );
    assert_eq!(parser.position(), 0x20C);
    assert_eq!(parser.lookup("z"), Some(0x208));
    assert_eq!(parser.lookup("w"), Some(0x20A));
    assert_eq!(
        parser.parse_code(&[(20, "x:")]),
        Err(ParserError::LineErr {
            line_number: 20,
            error: LineError::DuplicateAddress("x".to_string()),
        })
    );
    assert_eq!(parser.lookup("x"), Some(0x20C));
    assert_eq!(parser.insert("x", 5), Some(0x20C));
    assert_eq!(parser.parse_addr("x"), Ok(5));
    assert_eq!(parser.parse_addr("1"), Ok(0x20E));
    assert_eq!(parser.parse_instr("JP 1"), Ok(Instruction::GoTo(0x20E)));
    assert_eq!(parser.position(), 0x20E);
    assert_eq!(
        parser.parse_lowered("JP 1"),
        Err(LineError::InstructionErr("JP".to_string()))
    );
    assert_eq!(
        parser.parse_data_instr("k: 0x10 9").map(|(name, words)| (name.to_string(), words)),
        Ok(("k".to_string(), vec![Instruction::Raw(16), Instruction::Raw(9)]))
    );
}

#[test]
fn unicode_white_space_is_trimmed() {
    assert_eq!(
        parse("\u{2003}.code\u{a0}\n\u{3000}ret\u{2028}"),
        Ok(vec![Instruction::Return])
    );
    assert_eq!(
        parse(".code\nld v0,\u{a0}1\u{2003}"),
        Ok(vec![Instruction::SetVal(0, 1)])
    );
}

#[test]
fn messages() {
    assert_eq!(
        LineError::UnknownSection("x".to_string()).to_string(),
        "unknown section 'x'"
    );
    assert_eq!(
        LineError::InvalidAddress("x".to_string()).to_string(),
        "address 'x' is invalid"
    );
    assert_eq!(
        LineError::DuplicateAddress("x".to_string()).to_string(),
        "address 'x' has already been declared"
    );
    assert_eq!(
        LineError::WrongNumberOfArguments(3, 12).to_string(),
        "wrong number of arguments expected 3 but got 12"
    );
    assert_eq!(
        LineError::WrongJumpRegister.to_string(),
        "you can only jump to xxx + v0"
    );
    assert_eq!(
        LineError::InstructionErr("x".to_string()).to_string(),
        "wrong instruction: 'x'"
    );
    assert_eq!(
        LineError::RegisterErr("x".to_string()).to_string(),
        "invalid register 'x'"
    );
    assert_eq!(LineError::ParseIntErr.to_string(), "invalid integer");
    assert_eq!(
        ParserError::NoCodeSection.to_string(),
        "missing .code section"
    );
    assert_eq!(
        ParserError::line(104, LineError::ParseIntErr).to_string(),
        "line 104: invalid integer"
    );
}
