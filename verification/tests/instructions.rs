use chipo::emu::instructions::{as_addr, as_small_val, as_val, as_vx, as_vy};
use chipo::emu::Instruction;
use chipo::error::ChipoError;

#[test]
fn test_from_bin() {
    assert_eq!(
        Instruction::from(0x00E0).unwrap(),
        Instruction::DisplayClear
    );
}

#[test]
fn test_from_to_bin() {
    // CLS
    assert_eq!(Instruction::from(0x00E0).unwrap().to_bin(), 0x00E0);
    // SET V1 0x00
    assert_eq!(Instruction::from(0x6100).unwrap().to_bin(), 0x6100);
    // DRW V0 V0 0
    assert_eq!(Instruction::from(0xD000).unwrap().to_bin(), 0xD000);
    // JMP addr
    assert_eq!(Instruction::from(0x1999).unwrap().to_bin(), 0x1999);
    // JMP V0 addr
    assert_eq!(Instruction::from(0xB999).unwrap().to_bin(), 0xB999);
    // LD I 0xFFF
    assert_eq!(Instruction::from(0xAFFF).unwrap().to_bin(), 0xAFFF);
}

#[test]
fn test_to_asm() {
    assert_eq!(Instruction::Call(0x200).to_asm(), "call 0x200");
    assert_eq!(Instruction::SetVal(1, 0x30).to_asm(), "ld v1, 0x30");
    assert_eq!(Instruction::DisplayClear.to_asm(), "cls");
}

#[test]
fn decode_fields_of_a_word() {
    assert_eq!(as_addr(0xABCD), 0xBCD);
    assert_eq!(as_val(0xABCD), 0xCD);
    assert_eq!(as_small_val(0xABCD), 0xD);
    assert_eq!(as_vx(0xABCD), 0xB);
    assert_eq!(as_vy(0xABCD), 0xC);
}

#[test]
fn decode_every_family() {
    assert_eq!(Instruction::from(0x00EE).unwrap(), Instruction::Return);
    assert_eq!(Instruction::from(0x0123).unwrap(), Instruction::Raw(0x0123));
    assert_eq!(Instruction::from(0x2345).unwrap(), Instruction::Call(0x345));
    assert_eq!(Instruction::from(0x3A12).unwrap(), Instruction::IfEq(0xA, 0x12));
    assert_eq!(Instruction::from(0x4A12).unwrap(), Instruction::IfNeq(0xA, 0x12));
    assert_eq!(Instruction::from(0x5AB0).unwrap(), Instruction::IfEqRg(0xA, 0xB));
    assert_eq!(Instruction::from(0x7A12).unwrap(), Instruction::Add(0xA, 0x12));
    assert_eq!(Instruction::from(0x8AB0).unwrap(), Instruction::SetRg(0xA, 0xB));
    assert_eq!(Instruction::from(0x8AB1).unwrap(), Instruction::Or(0xA, 0xB));
    assert_eq!(Instruction::from(0x8AB2).unwrap(), Instruction::And(0xA, 0xB));
    assert_eq!(Instruction::from(0x8AB3).unwrap(), Instruction::Xor(0xA, 0xB));
    assert_eq!(Instruction::from(0x8AB4).unwrap(), Instruction::AddRg(0xA, 0xB));
    assert_eq!(Instruction::from(0x8AB5).unwrap(), Instruction::Sub(0xA, 0xB));
    assert_eq!(Instruction::from(0x8AB6).unwrap(), Instruction::RightShift(0xA));
    assert_eq!(Instruction::from(0x8AB7).unwrap(), Instruction::SubSelf(0xA, 0xB));
    assert_eq!(Instruction::from(0x8ABE).unwrap(), Instruction::LeftShift(0xA));
    assert_eq!(Instruction::from(0x9AB0).unwrap(), Instruction::IfNeqRg(0xA, 0xB));
    assert_eq!(Instruction::from(0xC1FF).unwrap(), Instruction::Rand(1, 0xFF));
    assert_eq!(Instruction::from(0xD125).unwrap(), Instruction::Disp(1, 2, 5));
    assert_eq!(Instruction::from(0xE19E).unwrap(), Instruction::KeyOpEq(1));
    assert_eq!(Instruction::from(0xE1A1).unwrap(), Instruction::KeyOpNeq(1));
    assert_eq!(Instruction::from(0xF107).unwrap(), Instruction::GetTimer(1));
    assert_eq!(Instruction::from(0xF10A).unwrap(), Instruction::GetKeyOp(1));
    assert_eq!(Instruction::from(0xF115).unwrap(), Instruction::SetTimer(1));
    assert_eq!(Instruction::from(0xF118).unwrap(), Instruction::SetSoundTimer(1));
    assert_eq!(Instruction::from(0xF11E).unwrap(), Instruction::AddToI(1));
    assert_eq!(Instruction::from(0xF129).unwrap(), Instruction::FontLoad(1));
    assert_eq!(Instruction::from(0xF133).unwrap(), Instruction::BCD(1));
    assert_eq!(Instruction::from(0xF155).unwrap(), Instruction::MemDump(1));
    assert_eq!(Instruction::from(0xF165).unwrap(), Instruction::MemLoad(1));
}

#[test]
fn decode_unknown_words() {
    assert_eq!(
        Instruction::from(0x8AB8),
        Err(ChipoError::UnknownOpCodeErr(0x8AB8))
    );
    assert_eq!(
        Instruction::from(0xE100),
        Err(ChipoError::UnknownOpCodeErr(0xE100))
    );
    assert_eq!(
        Instruction::from(0xF1FF),
        Err(ChipoError::UnknownOpCodeErr(0xF1FF))
    );
}

#[test]
fn every_word_that_decodes_encodes_to_what_decodes_alike() {
    let mut word: u32 = 0;
    while word <= 0xFFFF {
        if let Ok(instr) = Instruction::from(word as u16) {
            assert_eq!(Instruction::from(instr.to_bin()), Ok(instr));
        }
        word += 1;
    }
}

#[test]
fn random_instruction_is_family_c() {
    assert_eq!(Instruction::Rand(3, 0x0F).to_bin(), 0xC30F);
    assert_eq!(Instruction::from(0xC30F), Ok(Instruction::Rand(3, 0x0F)));
}

#[test]
fn encode_cuts_operands_to_their_fields() {
    assert_eq!(Instruction::GoTo(0x1234).to_bin(), 0x1234);
    assert_eq!(Instruction::SetVal(0x12, 0x34).to_bin(), 0x6234);
    assert_eq!(Instruction::Disp(1, 2, 0x35).to_bin(), 0xD125);
    assert_eq!(Instruction::CallPrg(0x5123).to_bin(), 0x0123);
    assert_eq!(Instruction::Raw(0xBEEF).to_bin(), 0xBEEF);
}

#[test]
fn text_of_every_operand_shape() {
    assert_eq!(Instruction::Raw(0x12).to_asm(), "raw 0x0012");
    assert_eq!(Instruction::Return.to_asm(), "ret");
    assert_eq!(Instruction::GoTo(0x2).to_asm(), "jp 0x002");
    assert_eq!(Instruction::IfEq(0xA, 1).to_asm(), "se vA, 0x01");
    assert_eq!(Instruction::IfNeq(0xA, 1).to_asm(), "sne vA, 0x01");
    assert_eq!(Instruction::IfEqRg(1, 2).to_asm(), "se v1, v2");
    assert_eq!(Instruction::IfNeqRg(1, 2).to_asm(), "sne v1, v2");
    assert_eq!(Instruction::Add(1, 0xFF).to_asm(), "add v1, 0xFF");
    assert_eq!(Instruction::SetRg(1, 2).to_asm(), "ld v1, v2");
    assert_eq!(Instruction::Or(1, 2).to_asm(), "or v1, v2");
    assert_eq!(Instruction::And(1, 2).to_asm(), "and v1, v2");
    assert_eq!(Instruction::Xor(1, 2).to_asm(), "xor v1, v2");
    assert_eq!(Instruction::AddRg(1, 2).to_asm(), "add v1, v2");
    assert_eq!(Instruction::Sub(1, 2).to_asm(), "sub v1, v2");
    assert_eq!(Instruction::SubSelf(1, 2).to_asm(), "subn v1, v2");
    assert_eq!(Instruction::RightShift(1).to_asm(), "shr v1");
    assert_eq!(Instruction::LeftShift(1).to_asm(), "shl v1");
    assert_eq!(Instruction::SetAddr(0xFFF).to_asm(), "ld i, 0xFFF");
    assert_eq!(Instruction::SetAddr(0x5).to_asm(), "ld i, 0x05");
    assert_eq!(Instruction::Jump(0x5).to_asm(), "jp 0x05");
    assert_eq!(Instruction::Jump(0x999).to_asm(), "jp 0x999");
    assert_eq!(Instruction::Rand(1, 2).to_asm(), "rnd v1, 0x02");
    assert_eq!(Instruction::Disp(0, 1, 5).to_asm(), "drw v0, v1, 0x05");
    assert_eq!(Instruction::KeyOpEq(1).to_asm(), "skp v1");
    assert_eq!(Instruction::KeyOpNeq(1).to_asm(), "sknp v1");
    assert_eq!(Instruction::GetTimer(1).to_asm(), "ld v1, dt");
    assert_eq!(Instruction::GetKeyOp(1).to_asm(), "ld v1, k");
    assert_eq!(Instruction::SetTimer(1).to_asm(), "ld dt, v1");
    assert_eq!(Instruction::SetSoundTimer(1).to_asm(), "ld st, v1");
    assert_eq!(Instruction::AddToI(1).to_asm(), "add i, v1");
    assert_eq!(Instruction::FontLoad(1).to_asm(), "ld f, v1");
    assert_eq!(Instruction::BCD(1).to_asm(), "ld b, v1");
    assert_eq!(Instruction::MemDump(1).to_asm(), "ld [i], v1");
    assert_eq!(Instruction::MemLoad(0xF).to_asm(), "ld vF, [i]");
    assert_eq!(
        Instruction::CallPrg(291).to_asm(),
        "unimplemented CallPrg(291).to_asm()"
    );
}

#[test]
fn debug_text_matches_the_derived_one() {
    let samples = vec![
        Instruction::Raw(4660),
        Instruction::CallPrg(5),
        Instruction::DisplayClear,
        Instruction::Return,
        Instruction::IfEq(1, 255),
        Instruction::Disp(1, 2, 3),
        Instruction::MemLoad(15),
        Instruction::SetSoundTimer(0),
    ];
    for instr in samples {
        assert_eq!(instr.to_debug(), format!("{:?}", instr));
    }
}

#[test]
fn register_check_follows_the_operands() {
    assert!(Instruction::Disp(15, 15, 200).valid_registers());
    assert!(!Instruction::Disp(16, 0, 1).valid_registers());
    assert!(!Instruction::SetRg(0, 16).valid_registers());
    assert!(Instruction::GoTo(0xFFFF_FFFF).valid_registers());
}
