use chipo::emu::Instruction;
use chipo::error::ChipoError;
use chipo::parser::{LineError, ParserError};
use chipo::{compile, reverse_parse};

#[test]
fn lib_test_reverse() {
    let code = r#".code
  ld v0, 0x01
  cls
  drw v0, v1, 0x05
  ret"#;
    let tokens = compile(code.to_string()).unwrap();
    let res = reverse_parse(&tokens).unwrap();
    assert_eq!(res, code);
}

#[test]
fn compile_writes_high_byte_first() {
    assert_eq!(
        compile(".code\nld v1, 0x23\njp 0".to_string()),
        Ok(vec![0x61, 0x23, 0x12, 0x02])
    );
    assert_eq!(compile(".code".to_string()), Ok(vec![]));
}

#[test]
fn compile_wraps_the_parser_error() {
    assert_eq!(
        compile("cls".to_string()),
        Err(ChipoError::ParserError(ParserError::NoCodeSection))
    );
    assert_eq!(
        compile(".code\nld v0, v".to_string()),
        Err(ChipoError::ParserError(ParserError::LineErr {
            line_number: 2,
            error: LineError::RegisterErr("v".to_string()),
        }))
    );
    assert_eq!(
        ChipoError::from(ParserError::NoCodeSection),
        ChipoError::ParserError(ParserError::NoCodeSection)
    );
}

#[test]
fn disassembly_of_any_bytes_succeeds() {
    assert_eq!(reverse_parse(&[]), Ok(".code\n".to_string()));
    assert_eq!(reverse_parse(&[0x12]), Ok(".code\n".to_string()));
    assert_eq!(
        reverse_parse(&[0xE1, 0x00, 0x01, 0x23, 0x81, 0x21, 0xFF]),
        Ok(".code\n  raw 0xE100\n  raw 0x0123\n  or v1, v2".to_string())
    );
}

#[test]
fn disassembly_assembles_to_the_same_bytes() {
    let bytes = vec![
        0x00, 0xE0, 0x61, 0x0A, 0x82, 0x10, 0x82, 0x11, 0x82, 0x0E, 0xA2, 0x34, 0xC3, 0x0F, 0xD1,
        0x25, 0xE1, 0x9E, 0xF1, 0x0A, 0xF1, 0x65, 0xF1, 0x55, 0x00, 0xEE,
    ];
    let text = reverse_parse(&bytes).unwrap();
    assert_eq!(compile(text), Ok(bytes));
}

#[test]
fn error_messages() {
    assert_eq!(
        ChipoError::UnknownOpCodeErr(0xE1).to_string(),
        "OpCode 0x00E1 not known"
    );
    assert_eq!(
        ChipoError::UnimplementedOpCodeErr(0x123, Instruction::Raw(0x123)).to_string(),
        "unimplemented OpCode 0x0123 Raw(291)"
    );
    assert_eq!(
        ChipoError::ParserError(ParserError::line(2, LineError::WrongJumpRegister)).to_string(),
        "line 2: you can only jump to xxx + v0"
    );
    assert_eq!(
        ChipoError::IOError("gone".to_string()).to_string(),
        "io error: gone"
    );
    assert_eq!(
        ChipoError::InvalidFile("a\"b.txt".to_string()).to_string(),
        "error: InvalidFile(\"a\\\"b.txt\")"
    );
}
