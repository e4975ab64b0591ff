use chip8::chip8::{Chip8, DEFAULT_FONT};
use chip8::input::{greatest_key, is_key_down, Input};
use chip8::instructions::{decode, Instruction};
use chip8::model::{LoadError, StepError};

fn machine_with(rom: &[u8]) -> Chip8 {
    let mut c = Chip8::new();
    c.load_font(None);
    assert_eq!(c.load_rom(rom), Ok(()));
    c
}

fn run(c: &mut Chip8, steps: usize) {
    for _ in 0..steps {
        assert!(c.do_next_instruction_with(0).is_ok());
    }
}

fn lit_pixels(c: &Chip8) -> usize {
    c.get_display().iter().map(|row| row.iter().filter(|p| **p).count()).sum()
}

#[test]
fn add_registers_scenario() {
    let mut c = machine_with(&[0x60, 0x42, 0x61, 0x03, 0x80, 0x14]);
    run(&mut c, 3);
    assert_eq!(c.register(0), 0x45);
    assert_eq!(c.register(1), 0x03);
    assert_eq!(c.register(0xF), 0);
}

#[test]
fn add_carry_scenario() {
    let mut c = machine_with(&[0x60, 0xFF, 0x61, 0x01, 0x80, 0x14]);
    run(&mut c, 3);
    assert_eq!(c.register(0), 0x00);
    assert_eq!(c.register(0xF), 1);
}

#[test]
fn sub_borrow_scenario() {
    let mut c = machine_with(&[0x60, 0x01, 0x61, 0x02, 0x80, 0x15]);
    run(&mut c, 3);
    assert_eq!(c.register(0), 0xFF);
    assert_eq!(c.register(0xF), 0);
}

#[test]
fn sub_without_borrow_sets_flag() {
    let mut c = machine_with(&[0x60, 0x05, 0x61, 0x02, 0x80, 0x15, 0x81, 0x07]);
    run(&mut c, 3);
    assert_eq!(c.register(0), 3);
    assert_eq!(c.register(0xF), 1);
    // SUBN V1, V0: 3 - 2
    run(&mut c, 1);
    assert_eq!(c.register(1), 1);
    assert_eq!(c.register(0xF), 1);
}

#[test]
fn call_ret_scenario() {
    let mut c = machine_with(&[0x22, 0x06, 0x12, 0x08, 0x00, 0x00, 0x00, 0xEE]);
    assert_eq!(c.do_next_instruction_with(0), Ok(0x2206));
    assert_eq!(c.program_counter(), 0x206);
    assert_eq!(c.stack_pointer(), 1);
    assert_eq!(c.do_next_instruction_with(0), Ok(0x00EE));
    assert_eq!(c.program_counter(), 0x202);
    assert_eq!(c.stack_pointer(), 0);
}

#[test]
fn draw_collision_scenario() {
    let mut c = machine_with(&[0xA0, 0x00, 0x60, 0x00, 0x61, 0x00, 0xD0, 0x15, 0xD0, 0x15]);
    assert_eq!(&[c.ram_byte(0), c.ram_byte(1), c.ram_byte(2), c.ram_byte(3), c.ram_byte(4)], &[0xF0, 0x90, 0x90, 0x90, 0xF0]);
    run(&mut c, 4);
    assert_eq!(c.register(0xF), 0);
    assert_eq!(lit_pixels(&c), 14);
    assert!(c.get_display()[0][0] && c.get_display()[0][3] && !c.get_display()[1][1]);
    run(&mut c, 1);
    assert_eq!(lit_pixels(&c), 0);
    assert_eq!(c.register(0xF), 1);
}

#[test]
fn bcd_scenario() {
    let mut c = machine_with(&[0x60, 0xFE, 0xA3, 0x00, 0xF0, 0x33]);
    run(&mut c, 3);
    assert_eq!([c.ram_byte(0x300), c.ram_byte(0x301), c.ram_byte(0x302)], [2, 5, 4]);
}

#[test]
fn bcd_digits_recompose_value() {
    for v in [0u8, 7, 9, 10, 42, 99, 100, 199, 200, 255] {
        let mut c = machine_with(&[0x60, v, 0xA3, 0x00, 0xF0, 0x33]);
        run(&mut c, 3);
        let (b0, b1, b2) = (c.ram_byte(0x300) as u32, c.ram_byte(0x301) as u32, c.ram_byte(0x302) as u32);
        assert_eq!(100 * b0 + 10 * b1 + b2, v as u32);
        assert!(b1 < 10 && b2 < 10);
    }
}

#[test]
fn load_immediate_touches_only_its_register() {
    for x in 0u8..16 {
        let mut c = machine_with(&[0x60, 0x11, 0x61, 0x22, 0x6F, 0x33, 0x60 | x, 0xA5]);
        run(&mut c, 3);
        let before: Vec<u8> = (0..16).map(|r| c.register(r)).collect();
        run(&mut c, 1);
        for r in 0..16usize {
            if r == x as usize {
                assert_eq!(c.register(r), 0xA5);
            } else {
                assert_eq!(c.register(r), before[r]);
            }
        }
    }
}

#[test]
fn clear_screen_turns_every_pixel_off() {
    let mut c = machine_with(&[0xA0, 0x00, 0xD0, 0x15, 0x00, 0xE0]);
    run(&mut c, 2);
    assert!(lit_pixels(&c) > 0);
    run(&mut c, 1);
    assert_eq!(lit_pixels(&c), 0);
    assert!(c.get_display().iter().all(|row| row.iter().all(|p| !*p)));
}

#[test]
fn draw_lights_at_most_eight_per_row() {
    // a sprite of three full rows at 0x300
    let mut rom = vec![0xA3, 0x00, 0x60, 0x0A, 0x61, 0x05, 0xD0, 0x13];
    rom.resize(0x100, 0);
    rom.extend_from_slice(&[0xFF, 0xFF, 0xFF]);
    let mut c = machine_with(&rom);
    run(&mut c, 4);
    assert_eq!(lit_pixels(&c), 24);
    assert!(lit_pixels(&c) <= 8 * 3);
    assert_eq!(c.register(0xF), 0);
    assert!(c.get_display()[5][10] && c.get_display()[7][17] && !c.get_display()[8][10]);
}

#[test]
fn draw_clips_at_right_and_bottom_edges() {
    // an 0xFF row drawn at x = 60, y = 31: only four pixels fit, one row
    let mut rom = vec![0xA3, 0x00, 0x60, 60, 0x61, 31, 0xD0, 0x12];
    rom.resize(0x100, 0);
    rom.extend_from_slice(&[0xFF, 0xFF]);
    let mut c = machine_with(&rom);
    run(&mut c, 4);
    assert_eq!(lit_pixels(&c), 4);
    assert!(c.get_display()[31][60] && c.get_display()[31][63]);
    assert!(!c.get_display()[0][0] && !c.get_display()[31][0]);
}

#[test]
fn draw_origin_wraps_around_the_display() {
    // x = 66 starts at column 2, y = 33 at row 1
    let mut c = machine_with(&[0xA0, 0x00, 0x60, 66, 0x61, 33, 0xD0, 0x11]);
    run(&mut c, 4);
    assert_eq!(lit_pixels(&c), 4);
    assert!(c.get_display()[1][2] && c.get_display()[1][5] && !c.get_display()[1][6]);
}

#[test]
fn draw_with_vf_as_coordinate_reads_it_cleared() {
    // VF = 5, then DRW VF, VF, 1 draws at (0, 0) since VF is cleared first
    let mut c = machine_with(&[0xA0, 0x00, 0x6F, 0x05, 0xDF, 0xF1]);
    run(&mut c, 3);
    assert!(c.get_display()[0][0]);
    assert!(!c.get_display()[5][5]);
}

#[test]
fn timers_count_down_once_per_frame() {
    let mut c = machine_with(&[0x60, 0x02, 0xF0, 0x15, 0x61, 0x01, 0xF1, 0x18, 0xF2, 0x07]);
    run(&mut c, 4);
    assert_eq!(c.delay_timer(), 2);
    assert_eq!(c.sound_timer(), 1);
    assert!(c.get_tone());
    c.do_frame();
    assert_eq!(c.delay_timer(), 1);
    assert_eq!(c.sound_timer(), 0);
    assert!(!c.get_tone());
    // LD V2, DT reads the timer; a step does not count it down
    run(&mut c, 1);
    assert_eq!(c.register(2), 1);
    assert_eq!(c.delay_timer(), 1);
    c.do_frame();
    c.do_frame();
    assert_eq!(c.delay_timer(), 0);
    assert_eq!(c.sound_timer(), 0);
}

#[test]
fn do_frame_returns_the_display() {
    let mut c = machine_with(&[0xA0, 0x00, 0xD0, 0x15]);
    run(&mut c, 2);
    let shown = *c.do_frame();
    assert_eq!(&shown, c.get_display());
    assert!(shown[0][0]);
}

#[test]
fn logic_operations_clear_flag() {
    for op in [0x01u8, 0x02, 0x03] {
        let mut c = machine_with(&[0x6F, 0x01, 0x60, 0x0C, 0x61, 0x0A, 0x80, 0x10 | op]);
        run(&mut c, 4);
        assert_eq!(c.register(0xF), 0);
        let expected = match op {
            0x01 => 0x0C | 0x0A,
            0x02 => 0x0C & 0x0A,
            _ => 0x0C ^ 0x0A,
        };
        assert_eq!(c.register(0), expected);
    }
}

#[test]
fn shifts_copy_vy_and_flag_the_lost_bit() {
    let mut c = machine_with(&[0x61, 0x81, 0x60, 0x00, 0x80, 0x16]);
    run(&mut c, 3);
    assert_eq!(c.register(0), 0x40);
    assert_eq!(c.register(1), 0x81);
    assert_eq!(c.register(0xF), 1);
    let mut c = machine_with(&[0x61, 0x81, 0x80, 0x1E]);
    run(&mut c, 2);
    assert_eq!(c.register(0), 0x02);
    assert_eq!(c.register(0xF), 1);
    let mut c = machine_with(&[0x61, 0x40, 0x80, 0x1E]);
    run(&mut c, 2);
    assert_eq!(c.register(0), 0x80);
    assert_eq!(c.register(0xF), 0);
}

#[test]
fn store_then_read_registers_round_trip() {
    let mut c = machine_with(&[
        0x60, 0x11, 0x61, 0x22, 0x62, 0x33, 0x63, 0x44, 0xA3, 0x00, 0xF2, 0x55, 0x60, 0x00,
        0x61, 0x00, 0x62, 0x00, 0xA3, 0x00, 0xF2, 0x65,
    ]);
    run(&mut c, 6);
    assert_eq!(c.index(), 0x303);
    assert_eq!([c.ram_byte(0x300), c.ram_byte(0x301), c.ram_byte(0x302), c.ram_byte(0x303)], [0x11, 0x22, 0x33, 0]);
    run(&mut c, 5);
    assert_eq!([c.register(0), c.register(1), c.register(2), c.register(3)], [0x11, 0x22, 0x33, 0x44]);
    assert_eq!(c.index(), 0x303);
}

#[test]
fn ram_addresses_wrap_at_the_end() {
    // LD I, 0xFFF ; LD V0, 7 ; LD V1, 9 ; LD [I], V1: bytes land at 0xFFF and 0x000
    let mut c = machine_with(&[0xAF, 0xFF, 0x60, 0x07, 0x61, 0x09, 0xF1, 0x55]);
    run(&mut c, 4);
    assert_eq!(c.ram_byte(0xFFF), 7);
    assert_eq!(c.ram_byte(0x000), 9);
    assert_eq!(c.index(), 0x1001);
}

#[test]
fn program_counter_wraps_and_stays_even() {
    // JP 0xFFE, and a SYS there: the next instruction is at 0x000
    let mut c = machine_with(&[0x1F, 0xFE]);
    run(&mut c, 1);
    assert_eq!(c.program_counter(), 0xFFE);
    run(&mut c, 1);
    assert_eq!(c.program_counter(), 0x000);
    for _ in 0..100 {
        let _ = c.do_next_instruction_with(0);
        assert!(c.program_counter() < 4096);
        assert_eq!(c.program_counter() % 2, 0);
    }
}

#[test]
fn jump_with_offset_lands_two_past_target() {
    let mut c = machine_with(&[0x60, 0x04, 0xB3, 0x00]);
    run(&mut c, 2);
    assert_eq!(c.program_counter(), 0x306);
}

#[test]
fn skips_move_past_next_instruction() {
    let mut c = machine_with(&[0x60, 0x05, 0x30, 0x05, 0x00, 0x00, 0x40, 0x05, 0x50, 0x00]);
    run(&mut c, 2);
    assert_eq!(c.program_counter(), 0x206);
    run(&mut c, 1);
    assert_eq!(c.program_counter(), 0x208);
    run(&mut c, 1);
    assert_eq!(c.program_counter(), 0x20C);
}

#[test]
fn index_instructions() {
    // LD V0, 0x0A ; LD F, V0 ; ADD I, V0
    let mut c = machine_with(&[0x60, 0x0A, 0xF0, 0x29, 0xF0, 0x1E]);
    run(&mut c, 2);
    assert_eq!(c.index(), 50);
    run(&mut c, 1);
    assert_eq!(c.index(), 60);
}

#[test]
fn random_is_masked_and_clears_flag() {
    let mut c = machine_with(&[0x6F, 0x01, 0xC0, 0x0F]);
    run(&mut c, 1);
    assert_eq!(c.do_next_instruction_with(0xAB), Ok(0xC00F));
    assert_eq!(c.register(0), 0x0B);
    assert_eq!(c.register(0xF), 0);
    for _ in 0..20 {
        let mut c = machine_with(&[0x6F, 0x01, 0xC0, 0x0F]);
        assert_eq!(c.do_next_instruction(), Ok(0x6F01));
        assert_eq!(c.do_next_instruction(), Ok(0xC00F));
        assert_eq!(c.register(0) & 0xF0, 0);
        assert_eq!(c.register(0xF), 0);
    }
}

#[test]
fn key_skips_follow_held_keys() {
    let mut c = machine_with(&[0x60, 0x05, 0xE0, 0x9E, 0x00, 0x00, 0xE0, 0xA1]);
    c.change_input(Input::Pressed(5));
    run(&mut c, 2);
    assert_eq!(c.program_counter(), 0x206);
    run(&mut c, 1);
    assert_eq!(c.program_counter(), 0x208);
    let mut c = machine_with(&[0x60, 0x05, 0xE0, 0x9E, 0x00, 0x00, 0xE0, 0xA1]);
    run(&mut c, 2);
    assert_eq!(c.program_counter(), 0x204);
}

#[test]
fn wait_for_key_repeats_until_a_release() {
    let mut c = machine_with(&[0xF3, 0x0A]);
    run(&mut c, 1);
    assert_eq!(c.program_counter(), 0x200);
    c.change_input(Input::Pressed(7));
    c.change_input(Input::Pressed(2));
    run(&mut c, 1);
    assert_eq!(c.program_counter(), 0x200);
    c.change_input(Input::Unpressed(7));
    c.change_input(Input::Unpressed(2));
    run(&mut c, 1);
    assert_eq!(c.program_counter(), 0x202);
    assert_eq!(c.register(3), 7);
}

#[test]
fn key_helpers() {
    assert!(is_key_down(0b0010_0000, 5));
    assert!(!is_key_down(0b0010_0000, 4));
    assert!(!is_key_down(0xFFFF, 16));
    assert_eq!(greatest_key(0b1010), 3);
    assert_eq!(greatest_key(0x8001), 15);
    assert_eq!(greatest_key(0), 0);
}

#[test]
fn unknown_opcode_is_a_decode_error() {
    for op in [[0x80u8, 0x08], [0xE0, 0x00], [0xF0, 0xFF]] {
        let mut c = machine_with(&op);
        let code = (op[0] as u16) << 8 | op[1] as u16;
        assert_eq!(c.do_next_instruction_with(0), Err(StepError::Decode(code)));
        assert_eq!(c.program_counter(), 0x200);
    }
}

#[test]
fn ret_on_empty_stack_underflows() {
    let mut c = machine_with(&[0x00, 0xEE]);
    assert_eq!(c.do_next_instruction_with(0), Err(StepError::StackUnderflow(0x00EE)));
    assert_eq!(c.program_counter(), 0x200);
    assert_eq!(c.stack_pointer(), 0);
}

#[test]
fn call_on_full_stack_overflows() {
    let mut c = machine_with(&[0x22, 0x00]);
    run(&mut c, 1024);
    assert_eq!(c.stack_pointer(), 1024);
    assert_eq!(c.do_next_instruction_with(0), Err(StepError::StackOverflow(0x2200)));
    assert_eq!(c.stack_pointer(), 1024);
}

#[test]
fn rom_too_large_is_refused() {
    let mut c = Chip8::new();
    assert_eq!(c.load_rom(&vec![1u8; 3585]), Err(LoadError::RomTooLarge(3585)));
    assert_eq!(c.ram_byte(0x200), 0);
    assert_eq!(c.load_rom(&vec![1u8; 3584]), Ok(()));
    assert_eq!(c.ram_byte(0x200), 1);
    assert_eq!(c.ram_byte(0xFFF), 1);
    assert_eq!(c.load_rom(&[]), Ok(()));
}

#[test]
fn fonts_install_at_zero() {
    let mut c = Chip8::new();
    c.load_font(None);
    for a in 0..80 {
        assert_eq!(c.ram_byte(a), DEFAULT_FONT[a]);
    }
    let long: Vec<u8> = (0..100).map(|b| b as u8 + 1).collect();
    let mut c = Chip8::new();
    c.load_font(Some(&long));
    assert_eq!(c.ram_byte(79), 80);
    assert_eq!(c.ram_byte(80), 0);
    let mut c = Chip8::new();
    c.load_font(Some(&[9, 8]));
    assert_eq!([c.ram_byte(0), c.ram_byte(1), c.ram_byte(2)], [9, 8, 0]);
}

#[test]
fn new_machine_is_cleared() {
    let c = Chip8::new();
    assert_eq!(c.program_counter(), 0x200);
    assert_eq!(c.stack_pointer(), 0);
    assert_eq!(c.index(), 0);
    assert!((0..16).all(|r| c.register(r) == 0));
    assert!(!c.get_tone());
    assert_eq!(lit_pixels(&c), 0);
}

#[test]
fn decoder_table() {
    assert_eq!(decode(0x00E0), Instruction::Cls);
    assert_eq!(decode(0x00EE), Instruction::Ret);
    assert_eq!(decode(0x0123), Instruction::Sys(0x123));
    assert_eq!(decode(0x1ABC), Instruction::Jump(0xABC));
    assert_eq!(decode(0x8AB4), Instruction::AddReg(0xA, 0xB));
    assert_eq!(decode(0x8ABE), Instruction::ShiftLeftReg(0xA, 0xB));
    assert_eq!(decode(0x8AB9), Instruction::Unknown);
    assert_eq!(decode(0xD125), Instruction::Draw(1, 2, 5));
    assert_eq!(decode(0xE3A1), Instruction::SkipIfKeyNotPressed(3));
    assert_eq!(decode(0xF465), Instruction::ReadRegisters(4));
    assert_eq!(decode(0xBFFF), Instruction::JumpWithOffset(0xFFF));
}

#[test]
fn current_instruction_reads_at_program_counter() {
    let c = machine_with(&[0x6A, 0x42]);
    assert_eq!(c.get_current_opcode(), 0x6A42);
    assert_eq!(c.get_current_instruction(), Instruction::LoadImm(0xA, 0x42));
}
