use chipo::compile;
use chipo::emu::{Instruction, Keycode, Proc, ProgramState, Rect};
use chipo::error::ChipoError;

fn exec(prg: &str) -> Proc {
    let binary = compile(format!(".code\n{}\nret", prg)).unwrap();
    let mut proc = Proc::binary(&binary).unwrap();

    while let Ok(ProgramState::Continue) = proc.cycle() {}

    proc
}

fn load(words: &[u16]) -> Proc {
    let mut blob = Vec::new();
    for word in words {
        blob.push((word >> 8) as u8);
        blob.push((word & 0xFF) as u8);
    }
    Proc::binary(&blob).unwrap()
}

#[test]
fn test_add() {
    let proc = exec(
        r#"
    ld v0, 10
    ld v1, 10
    add v0, v1
            "#,
    );

    assert_eq!(proc.register(0), 20);
}

#[test]
fn test_and() {
    let proc = exec(
        r#"
    ld v0, 0xFF
    ld v1, 0x0F
    and v0, v1
            "#,
    );

    assert_eq!(proc.register(0), 0x0F);
}

#[test]
fn test_or() {
    let proc = exec(
        r#"
    ld v0, 0xF0
    ld v1, 0x0F
    or v0, v1
            "#,
    );

    assert_eq!(proc.register(0), 0xFF);
}

#[test]
fn test_set_addr() {
    let proc = exec("ld i, 0xFFF");

    assert_eq!(proc.address(), 0xFFF);
}

#[test]
fn test_is_equal() {
    let proc = exec(
        r#"
    ld v0, 1
    ld v1, 1
    se v0, v1
    ld v0, 10
    "#,
    );

    assert_eq!(proc.register(0), 1);
}

#[test]
fn test_is_not_equal() {
    let proc = exec(
        r#"
    ld v0, 1
    ld v1, 1
    sne v0, v1
    ld v0, 10
    "#,
    );

    assert_eq!(proc.register(0), 10);
}

#[test]
fn test_skip_is_equal() {
    let proc = exec(
        r#"
    ld v0, 1
    ld v1, 2
    se v0, v1
    ld v0, 10
    "#,
    );

    assert_eq!(proc.register(0), 10);
}

#[test]
fn test_skip_is_not_equal() {
    let proc = exec(
        r#"
    ld v0, 1
    ld v1, 2
    sne v0, v1
    ld v0, 10
    "#,
    );

    assert_eq!(proc.register(0), 1);
}

#[test]
fn test_bcd() {
    let proc = exec(
        r#"
    ld v0, 123
    ld b, v0
    ld v2, [i]
    "#,
    );

    assert_eq!(proc.register(0), 1);
    assert_eq!(proc.register(1), 2);
    assert_eq!(proc.register(2), 3);
}

#[test]
fn test_font_load() {
    let proc = exec(
        r#"
    ld v0, 2
    ld f, v0
    "#,
    );

    assert_eq!(proc.address(), 10);
}

#[test]
fn test_call() {
    let proc = exec(
        r#"
    call addr
    ret

addr:
    ld v0, 5
    "#,
    );

    assert_eq!(proc.register(0), 5);
}

#[test]
fn test_jump() {
    let proc = exec(
        r#"
    jp addr
done:
    ret

addr:
    ld v0, 5
    jp done
    "#,
    );

    assert_eq!(proc.register(0), 5);
}

#[test]
fn test_sub() {
    let proc = exec(
        r#"
    ld v0, 10
    ld v1, 5
    sub v0, v1
    "#,
    );

    assert_eq!(proc.register(0), 5);

    let proc = exec(
        r#"
    ld v0, 10
    ld v1, 5
    sub v1, v0
    "#,
    );

    assert_eq!(proc.register(0), 10);
    assert_eq!(proc.register(1), 251);
    assert_eq!(proc.register(0xF), 1);
}

#[test]
fn boot_loads_font_and_program() {
    let proc = Proc::binary(&[0x12, 0x34, 0x56]).unwrap();
    assert_eq!(proc.memory_at(0), 0xF0);
    assert_eq!(proc.memory_at(1), 0x90);
    assert_eq!(proc.memory_at(5), 0x20);
    assert_eq!(proc.memory_at(79), 0x80);
    assert_eq!(proc.memory_at(80), 0);
    assert_eq!(proc.memory_at(0x1FF), 0);
    assert_eq!(proc.memory_at(0x200), 0x12);
    assert_eq!(proc.memory_at(0x201), 0x34);
    assert_eq!(proc.memory_at(0x202), 0x56);
    assert_eq!(proc.memory_at(0x203), 0);
    assert_eq!(proc.program_counter(), 0x200);
    assert_eq!(proc.address(), 0);
    assert_eq!(proc.stack_depth(), 0);
    assert!(proc.should_render);
    assert!(!proc.pixel(0, 0));
    assert!(!proc.should_buzz());
}

#[test]
fn boot_takes_a_program_that_fills_memory() {
    let blob = vec![0xAB; 4096 - 0x200];
    let proc = Proc::binary(&blob).unwrap();
    assert_eq!(proc.memory_at(4095), 0xAB);
}

#[test]
fn lone_return_stops_at_once() {
    let mut proc = load(&[0x00EE]);
    assert!(proc.can_cycle());
    assert!(matches!(proc.cycle(), Ok(ProgramState::Stop)));
    assert_eq!(proc.program_counter(), 0x200);
}

#[test]
fn call_saves_its_own_address() {
    let mut proc = load(&[0x2204, 0x0000, 0x00EE]);
    assert!(matches!(proc.cycle(), Ok(ProgramState::Continue)));
    assert_eq!(proc.program_counter(), 0x204);
    assert_eq!(proc.stack_depth(), 1);
    assert!(matches!(proc.cycle(), Ok(ProgramState::Continue)));
    assert_eq!(proc.program_counter(), 0x202);
    assert_eq!(proc.stack_depth(), 0);
}

#[test]
fn unknown_word_is_reported_and_changes_nothing() {
    let mut proc = load(&[0xE100]);
    assert_eq!(proc.cycle().err(), Some(ChipoError::UnknownOpCodeErr(0xE100)));
    assert_eq!(proc.program_counter(), 0x200);
}

#[test]
fn data_word_cannot_be_run() {
    let mut proc = load(&[0x0123]);
    assert_eq!(
        proc.cycle().err(),
        Some(ChipoError::UnimplementedOpCodeErr(
            0x0123,
            Instruction::Raw(0x0123)
        ))
    );
    let mut proc = load(&[0x00EE]);
    assert_eq!(
        proc.execute(Instruction::CallPrg(0x123), 0).err(),
        Some(ChipoError::UnimplementedOpCodeErr(
            0x0123,
            Instruction::CallPrg(0x123)
        ))
    );
}

#[test]
fn add_wraps_without_flag() {
    let mut proc = load(&[0x60FF, 0x6F07, 0x7002]);
    proc.cycle().unwrap();
    proc.cycle().unwrap();
    proc.cycle().unwrap();
    assert_eq!(proc.register(0), 1);
    assert_eq!(proc.register(0xF), 7);
}

#[test]
fn add_registers_sets_carry() {
    let mut proc = load(&[0x60FF, 0x6102, 0x8014, 0x8014]);
    proc.cycle().unwrap();
    proc.cycle().unwrap();
    proc.cycle().unwrap();
    assert_eq!(proc.register(0), 1);
    assert_eq!(proc.register(0xF), 1);
    proc.cycle().unwrap();
    assert_eq!(proc.register(0), 3);
    assert_eq!(proc.register(0xF), 0);
}

#[test]
fn reverse_subtract_takes_second_minus_first() {
    let mut proc = load(&[0x6003, 0x610A, 0x8017, 0x6003, 0x6101, 0x8017]);
    for _ in 0..3 {
        proc.cycle().unwrap();
    }
    assert_eq!(proc.register(0), 7);
    assert_eq!(proc.register(0xF), 0);
    for _ in 0..3 {
        proc.cycle().unwrap();
    }
    assert_eq!(proc.register(0), 254);
    assert_eq!(proc.register(0xF), 1);
}

#[test]
fn shifts_keep_the_bit_that_leaves() {
    let mut proc = load(&[0x6005, 0x8006, 0x6181, 0x810E, 0x6241, 0x820E]);
    proc.cycle().unwrap();
    proc.cycle().unwrap();
    assert_eq!(proc.register(0), 2);
    assert_eq!(proc.register(0xF), 1);
    proc.cycle().unwrap();
    proc.cycle().unwrap();
    assert_eq!(proc.register(1), 0x02);
    assert_eq!(proc.register(0xF), 0x80);
    proc.cycle().unwrap();
    proc.cycle().unwrap();
    assert_eq!(proc.register(2), 0x82);
    assert_eq!(proc.register(0xF), 0);
}

#[test]
fn xor_and_copy() {
    let mut proc = load(&[0x60F0, 0x61FF, 0x8013, 0x8200]);
    for _ in 0..4 {
        proc.cycle().unwrap();
    }
    assert_eq!(proc.register(0), 0x0F);
    assert_eq!(proc.register(2), 0x0F);
}

#[test]
fn skip_on_immediate() {
    let mut proc = load(&[0x3000, 0x0000, 0x4000, 0x3001]);
    proc.cycle().unwrap();
    assert_eq!(proc.program_counter(), 0x204);
    proc.cycle().unwrap();
    assert_eq!(proc.program_counter(), 0x206);
    proc.cycle().unwrap();
    assert_eq!(proc.program_counter(), 0x208);
}

#[test]
fn indexed_jump_adds_register_zero() {
    let mut proc = load(&[0x6004, 0xB300]);
    proc.cycle().unwrap();
    proc.cycle().unwrap();
    assert_eq!(proc.program_counter(), 0x304);
}

#[test]
fn random_is_masked() {
    for _ in 0..200 {
        let mut proc = load(&[0xC00F, 0xC1FF]);
        proc.cycle().unwrap();
        proc.cycle().unwrap();
        assert!(proc.register(0) <= 0x0F);
        assert!(proc.register(1) < 255);
        assert_eq!(proc.program_counter(), 0x204);
    }
}

#[test]
fn random_byte_is_the_argument_of_execute() {
    let mut proc = load(&[0xC03C]);
    proc.execute(Instruction::Rand(0, 0x3C), 0xA5).unwrap();
    assert_eq!(proc.register(0), 0xA5 & 0x3C);
}

#[test]
fn draw_xors_and_reports_collision() {
    // two times the glyph of 0 at (62, 30): it wraps around both edges
    let mut proc = load(&[0x603E, 0x611E, 0xA000, 0xD015, 0xD015]);
    for _ in 0..4 {
        proc.cycle().unwrap();
    }
    assert_eq!(proc.register(0xF), 0);
    assert!(proc.should_render);
    // first row 0xF0: columns 62, 63, 0, 1 of row 30
    assert!(proc.pixel(62, 30));
    assert!(proc.pixel(63, 30));
    assert!(proc.pixel(0, 30));
    assert!(proc.pixel(1, 30));
    assert!(!proc.pixel(2, 30));
    // second row 0x90: columns 62 and 1 of row 31
    assert!(proc.pixel(62, 31));
    assert!(!proc.pixel(63, 31));
    assert!(!proc.pixel(0, 31));
    assert!(proc.pixel(1, 31));
    // third row wraps to row 0
    assert!(proc.pixel(62, 0));
    assert!(proc.pixel(1, 0));
    // fifth row 0xF0 at row 2
    assert!(proc.pixel(63, 2));
    proc.cycle().unwrap();
    assert_eq!(proc.register(0xF), 1);
    assert!(!proc.pixel(62, 30));
    assert!(!proc.pixel(1, 31));
}

#[test]
fn clear_display_marks_it_due() {
    let mut proc = load(&[0xA000, 0xD005, 0x00E0]);
    proc.cycle().unwrap();
    proc.cycle().unwrap();
    assert!(proc.pixel(0, 0));
    proc.should_render = false;
    proc.cycle().unwrap();
    assert!(!proc.pixel(0, 0));
    assert!(proc.should_render);
    assert_eq!(proc.program_counter(), 0x206);
}

#[test]
fn set_pixel_flips_and_wraps() {
    let mut proc = load(&[]);
    assert!(!proc.set_pixel(64 + 3, 32 + 2, true));
    assert!(proc.pixel(3, 2));
    assert!(!proc.set_pixel(3, 2, false));
    assert!(proc.pixel(3, 2));
    assert!(proc.set_pixel(3, 2, true));
    assert!(!proc.pixel(3, 2));
}

#[test]
fn rects_of_lit_pixels() {
    let mut proc = load(&[]);
    proc.set_pixel(1, 0, true);
    proc.set_pixel(63, 31, true);
    let rects = proc.to_rects();
    assert_eq!(
        rects,
        vec![
            Rect { x: 10, y: 0, width: 10, height: 10 },
            Rect { x: 630, y: 310, width: 10, height: 10 },
        ]
    );
    assert!(!proc.should_render);
}

#[test]
fn timers_count_down_to_zero() {
    let mut proc = load(&[0x6002, 0xF015, 0x6001, 0xF018, 0xF107]);
    for _ in 0..5 {
        proc.cycle().unwrap();
    }
    assert_eq!(proc.register(1), 2);
    assert_eq!(proc.delay_timer(), 2);
    assert_eq!(proc.sound_timer(), 1);
    assert!(proc.should_buzz());
    proc.decrement_registers();
    assert_eq!(proc.delay_timer(), 1);
    assert_eq!(proc.sound_timer(), 0);
    assert!(!proc.should_buzz());
    proc.decrement_registers();
    proc.decrement_registers();
    assert_eq!(proc.delay_timer(), 0);
    assert_eq!(proc.sound_timer(), 0);
}

#[test]
fn memory_dump_and_load_are_inclusive() {
    let mut proc = load(&[0x6011, 0x6122, 0x6233, 0xA300, 0xF155, 0x6000, 0x6100, 0xF165]);
    for _ in 0..5 {
        proc.cycle().unwrap();
    }
    assert_eq!(proc.memory_at(0x300), 0x11);
    assert_eq!(proc.memory_at(0x301), 0x22);
    assert_eq!(proc.memory_at(0x302), 0);
    for _ in 0..3 {
        proc.cycle().unwrap();
    }
    assert_eq!(proc.register(0), 0x11);
    assert_eq!(proc.register(1), 0x22);
    assert_eq!(proc.register(2), 0x33);
}

#[test]
fn add_to_address_register() {
    let mut proc = load(&[0x60FF, 0xAFFF, 0xF01E]);
    for _ in 0..3 {
        proc.cycle().unwrap();
    }
    assert_eq!(proc.address(), 0xFFF + 0xFF);
}

#[test]
fn key_wait_holds_the_program_counter() {
    let mut proc = load(&[0xF30A]);
    proc.cycle().unwrap();
    assert_eq!(proc.program_counter(), 0x200);
    proc.set_key_down(Keycode::V);
    proc.set_key_down(Keycode::Q);
    assert!(proc.key_down(0xF));
    assert!(proc.key_down(4));
    proc.cycle().unwrap();
    assert_eq!(proc.program_counter(), 0x202);
    assert_eq!(proc.register(3), 4);
}

#[test]
fn key_skips_go_by_the_lowest_key_down() {
    let mut proc = load(&[0x6007, 0xE09E, 0xE0A1, 0x0000, 0xE09E, 0x0000, 0xE0A1]);
    proc.cycle().unwrap();
    proc.cycle().unwrap();
    assert_eq!(proc.program_counter(), 0x204);
    proc.cycle().unwrap();
    assert_eq!(proc.program_counter(), 0x208);
    proc.set_key_down(Keycode::A);
    proc.set_key_down(Keycode::Other);
    proc.cycle().unwrap();
    assert_eq!(proc.program_counter(), 0x20C);
    // a lower key hides the one that the register names
    proc.set_key_down(Keycode::Num1);
    proc.cycle().unwrap();
    assert_eq!(proc.program_counter(), 0x210);
    proc.set_key_up(Keycode::Num1);
    assert!(!proc.key_down(1));
}

#[test]
fn pad_layout() {
    let proc = load(&[]);
    assert_eq!(proc.get_key_index(Keycode::Num1), Some(1));
    assert_eq!(proc.get_key_index(Keycode::Num4), Some(0xC));
    assert_eq!(proc.get_key_index(Keycode::R), Some(0xD));
    assert_eq!(proc.get_key_index(Keycode::F), Some(0xE));
    assert_eq!(proc.get_key_index(Keycode::Z), Some(0xA));
    assert_eq!(proc.get_key_index(Keycode::X), Some(0));
    assert_eq!(proc.get_key_index(Keycode::C), Some(0xB));
    assert_eq!(proc.get_key_index(Keycode::V), Some(0xF));
    assert_eq!(proc.get_key_index(Keycode::Other), None);
}

#[test]
fn steps_that_would_leave_memory_are_told_apart() {
    // a jump to the last byte leaves no word to fetch
    let mut proc = load(&[0x1FFF]);
    assert!(proc.can_cycle());
    proc.cycle().unwrap();
    assert!(!proc.can_cycle());
    // three digits do not fit at 0xFFE
    let mut proc = load(&[0xAFFE, 0xF033]);
    proc.cycle().unwrap();
    assert!(!proc.can_cycle());
    // a glyph address beyond a byte
    let mut proc = load(&[0x6034, 0xF029]);
    proc.cycle().unwrap();
    assert!(!proc.can_cycle());
    let mut proc = load(&[0x6033, 0xF029]);
    proc.cycle().unwrap();
    assert!(proc.can_cycle());
    proc.cycle().unwrap();
    assert_eq!(proc.address(), 255);
    // a register that does not exist
    let proc = load(&[]);
    assert!(!proc.can_execute(Instruction::SetVal(16, 0)));
    assert!(proc.can_execute(Instruction::SetVal(15, 0)));
}

#[test]
fn browser_names_of_keys() {
    assert_eq!(Keycode::from_name("digit1"), Keycode::Num1);
    assert_eq!(Keycode::from_name("digit4"), Keycode::Num4);
    assert_eq!(Keycode::from_name("keyq"), Keycode::Q);
    assert_eq!(Keycode::from_name("keyv"), Keycode::V);
    assert_eq!(Keycode::from_name("KeyV"), Keycode::Other);
    assert_eq!(Keycode::from_name(""), Keycode::Other);
}
