use chip8::cartridge::{CartridgeDriver, ROM_SIZE};
use chip8::cpu::CPU;
use chip8::keypad::{key_index, keypad_state};
use chip8::machine::Chip8Error;
use chip8::probe::build_cpu;
use chip8::{CHIP8_HEIGHT, CHIP8_WIDTH};

#[test]
fn load_refuses_oversized_image() {
    let mut cpu = CPU::new();
    let image = vec![7u8; 0xE01];
    assert_eq!(cpu.load_program(&image), Err(Chip8Error::OutOfBounds));
    assert_eq!(cpu.memory(0x200), 0);
}

#[test]
fn load_accepts_image_filling_memory() {
    let mut cpu = CPU::new();
    let image = vec![7u8; 0xE00];
    assert_eq!(cpu.load_program(&image), Ok(()));
    assert_eq!(cpu.memory(0x200), 7);
    assert_eq!(cpu.memory(0xFFF), 7);
    assert_eq!(cpu.memory(0x1FF), 0);
}

#[test]
fn call_on_full_stack_overflows() {
    let mut cpu = build_cpu();
    cpu.set_sp(16);
    assert_eq!(cpu.run_opcode(0x2123), Err(Chip8Error::StackOverflow));
    assert_eq!(cpu.pc(), 0xF00);
    assert_eq!(cpu.sp(), 16);
}

#[test]
fn return_on_empty_stack_underflows() {
    let mut cpu = CPU::new();
    assert_eq!(cpu.run_opcode(0x00EE), Err(Chip8Error::StackUnderflow));
    assert_eq!(cpu.pc(), 0x200);
}

#[test]
fn faulting_cycle_changes_nothing() {
    let mut cpu = CPU::new();
    cpu.load_program(&[0x00, 0xEE]).unwrap();
    cpu.set_delay_timer(5);
    assert!(matches!(cpu.tick([true; 16]), Err(Chip8Error::StackUnderflow)));
    assert_eq!(cpu.delay_timer(), 5);
    assert_eq!(cpu.pc(), 0x200);
}

#[test]
fn call_then_return_comes_back() {
    let mut cpu = CPU::new();
    cpu.load_program(&[0x22, 0x04, 0x00, 0x00, 0x00, 0xEE]).unwrap();
    cpu.tick([false; 16]).unwrap();
    assert_eq!(cpu.pc(), 0x204);
    assert_eq!(cpu.sp(), 1);
    cpu.tick([false; 16]).unwrap();
    assert_eq!(cpu.pc(), 0x202);
    assert_eq!(cpu.sp(), 0);
}

#[test]
fn add_with_carry_wraps() {
    let mut cpu = build_cpu();
    cpu.set_register(3, 0xFF);
    cpu.set_register(4, 0xFF);
    cpu.run_opcode(0x8344).unwrap();
    assert_eq!(cpu.register(3), 0xFE);
    assert_eq!(cpu.register(0xF), 1);

    cpu.set_register(3, 0x0F);
    cpu.set_register(4, 0x0F);
    cpu.run_opcode(0x8344).unwrap();
    assert_eq!(cpu.register(3), 0x1E);
    assert_eq!(cpu.register(0xF), 0);
}

#[test]
fn subtract_sets_not_borrow() {
    let mut cpu = build_cpu();
    cpu.set_register(6, 0x0F);
    cpu.set_register(7, 0x01);
    cpu.run_opcode(0x8675).unwrap();
    assert_eq!(cpu.register(6), 0x0E);
    assert_eq!(cpu.register(0xF), 1);

    cpu.set_register(6, 0x0F);
    cpu.set_register(7, 0xFF);
    cpu.run_opcode(0x8675).unwrap();
    assert_eq!(cpu.register(6), 0x10);
    assert_eq!(cpu.register(0xF), 0);
}

#[test]
fn flag_register_as_operand_keeps_the_flag() {
    let mut cpu = build_cpu();
    cpu.set_register(0xF, 0x80);
    cpu.run_opcode(0x8F0E).unwrap();
    assert_eq!(cpu.register(0xF), 1);
}

#[test]
fn skips_count_from_the_instruction() {
    for (op, skips) in [(0x3A07u16, true), (0x3A08, false), (0x4A07, false), (0x4A08, true)] {
        let mut cpu = build_cpu();
        cpu.set_pc(0x300);
        cpu.set_register(0xA, 7);
        cpu.run_opcode(op).unwrap();
        assert_eq!(cpu.pc(), if skips { 0x304 } else { 0x302 });
    }
}

#[test]
fn skip_wraps_at_top_of_address_space() {
    let mut cpu = build_cpu();
    cpu.set_pc(0xFFFE);
    cpu.run_opcode(0x3000).unwrap();
    assert_eq!(cpu.pc(), 0x0002);
}

#[test]
fn key_above_pad_is_never_pressed() {
    let mut cpu = build_cpu();
    cpu.set_register(2, 0x10);
    for k in 0..16 {
        cpu.set_key(k, true);
    }
    cpu.run_opcode(0xE29E).unwrap();
    assert_eq!(cpu.pc(), 0xF02);
    cpu.run_opcode(0xE2A1).unwrap();
    assert_eq!(cpu.pc(), 0xF06);
}

#[test]
fn drawing_twice_restores_the_screen() {
    let mut cpu = build_cpu();
    cpu.set_i(0x300);
    cpu.set_memory(0x300, 0b1010_0101);
    cpu.set_memory(0x301, 0b1111_0000);
    cpu.set_pixel(10, 62, 1);
    cpu.set_pixel(11, 61, 1);
    cpu.set_register(0, 60);
    cpu.set_register(1, 10);
    let before: Vec<u8> = (0..CHIP8_HEIGHT)
        .flat_map(|r| (0..CHIP8_WIDTH).map(move |c| (r, c)))
        .map(|(r, c)| cpu.pixel(r, c))
        .collect();
    cpu.run_opcode(0xD012).unwrap();
    assert_eq!(cpu.register(0xF), 1);
    assert_eq!(cpu.pixel(10, 60), 1);
    assert_eq!(cpu.pixel(10, 62), 0);
    assert_eq!(cpu.pixel(11, 61), 0);
    assert_eq!(cpu.pixel(10, 1), 1);
    cpu.run_opcode(0xD012).unwrap();
    assert_eq!(cpu.register(0xF), 1);
    let after: Vec<u8> = (0..CHIP8_HEIGHT)
        .flat_map(|r| (0..CHIP8_WIDTH).map(move |c| (r, c)))
        .map(|(r, c)| cpu.pixel(r, c))
        .collect();
    assert_eq!(before, after);
}

#[test]
fn second_draw_flag_follows_intermediate_screen() {
    let mut cpu = build_cpu();
    cpu.set_i(0x300);
    cpu.set_memory(0x300, 0b1000_0000);
    cpu.set_pixel(0, 0, 1);
    cpu.set_register(0, 0);
    cpu.set_register(1, 0);
    cpu.run_opcode(0xD011).unwrap();
    assert_eq!(cpu.register(0xF), 1);
    assert_eq!(cpu.pixel(0, 0), 0);
    cpu.run_opcode(0xD011).unwrap();
    assert_eq!(cpu.register(0xF), 0);
    assert_eq!(cpu.pixel(0, 0), 1);
}

#[test]
fn wait_takes_lowest_pressed_key() {
    let mut cpu = CPU::new();
    cpu.load_program(&[0xF7, 0x0A]).unwrap();
    cpu.set_delay_timer(10);
    cpu.set_sound_timer(10);
    cpu.tick([false; 16]).unwrap();
    assert!(cpu.keypad_waiting());
    assert_eq!(cpu.register(7), 0);
    assert_eq!(cpu.delay_timer(), 9);
    let mut keys = [false; 16];
    keys[3] = true;
    keys[7] = true;
    cpu.tick([false; 16]).unwrap();
    assert!(cpu.keypad_waiting());
    assert_eq!(cpu.delay_timer(), 9);
    cpu.tick(keys).unwrap();
    assert!(!cpu.keypad_waiting());
    assert_eq!(cpu.register(7), 3);
    assert_eq!(cpu.delay_timer(), 9);
    assert_eq!(cpu.sound_timer(), 9);
    assert_eq!(cpu.pc(), 0x202);
}

#[test]
fn timers_stop_at_zero() {
    let mut cpu = CPU::new();
    cpu.set_delay_timer(1);
    cpu.set_sound_timer(2);
    let beep = cpu.tick([false; 16]).unwrap().beep;
    assert!(beep);
    assert_eq!(cpu.delay_timer(), 0);
    let beep = cpu.tick([false; 16]).unwrap().beep;
    assert!(!beep);
    cpu.tick([false; 16]).unwrap();
    assert_eq!(cpu.delay_timer(), 0);
    assert_eq!(cpu.sound_timer(), 0);
}

#[test]
fn random_byte_is_masked() {
    let mut cpu = CPU::new();
    cpu.load_program(&[0xC0, 0xF0]).unwrap();
    cpu.step([false; 16], 0xAB).unwrap();
    assert_eq!(cpu.register(0), 0xA0);
    assert_eq!(cpu.execute(0xC10F, 0xAB), Ok(()));
    assert_eq!(cpu.register(1), 0x0B);
}

#[test]
fn unknown_word_only_advances() {
    let mut cpu = build_cpu();
    let regs = cpu.registers();
    cpu.run_opcode(0x5001).unwrap();
    cpu.run_opcode(0xE0FF).unwrap();
    cpu.run_opcode(0x0123).unwrap();
    assert_eq!(cpu.pc(), 0xF06);
    assert_eq!(cpu.registers(), regs);
}

#[test]
fn address_add_flags_leaving_memory() {
    let mut cpu = build_cpu();
    cpu.set_i(0xFFF);
    cpu.set_register(1, 1);
    cpu.run_opcode(0xF11E).unwrap();
    assert_eq!(cpu.i(), 0x1000);
    assert_eq!(cpu.register(0xF), 1);
    cpu.set_i(0x10);
    cpu.run_opcode(0xF11E).unwrap();
    assert_eq!(cpu.i(), 0x11);
    assert_eq!(cpu.register(0xF), 0);
}

#[test]
fn font_address_points_at_glyph() {
    let mut cpu = build_cpu();
    cpu.set_register(5, 0xA);
    cpu.run_opcode(0xF529).unwrap();
    assert_eq!(cpu.i(), 50);
    let glyph: Vec<u8> = (50..55).map(|a| cpu.memory(a)).collect();
    assert_eq!(glyph, [0xF0, 0x90, 0xF0, 0x90, 0x90]);
}

#[test]
fn bcd_of_largest_byte() {
    let mut cpu = build_cpu();
    cpu.set_register(2, 255);
    cpu.set_i(0x400);
    cpu.run_opcode(0xF233).unwrap();
    assert_eq!(cpu.memory(0x400), 2);
    assert_eq!(cpu.memory(0x401), 5);
    assert_eq!(cpu.memory(0x402), 5);
}

#[test]
fn register_store_wraps_at_end_of_memory() {
    let mut cpu = build_cpu();
    cpu.set_i(0xFFE);
    cpu.set_registers([9, 8, 7, 6, 5, 4, 3, 2, 1, 0, 1, 2, 3, 4, 5, 6]);
    cpu.run_opcode(0xF255).unwrap();
    assert_eq!(cpu.memory(0xFFE), 9);
    assert_eq!(cpu.memory(0xFFF), 8);
    assert_eq!(cpu.memory(0), 7);
    assert_eq!(cpu.memory(1), 0x90);
}

#[test]
fn fetch_wraps_at_end_of_memory() {
    let mut cpu = CPU::new();
    cpu.set_pc(0xFFF);
    cpu.set_memory(0xFFF, 0x61);
    cpu.tick([false; 16]).unwrap();
    assert_eq!(cpu.register(1), 0xF0);
    assert_eq!(cpu.pc(), 0x1001);
}

#[test]
fn output_reports_drawing_and_sound() {
    let mut cpu = CPU::new();
    cpu.load_program(&[0xD0, 0x05, 0x00, 0xE0]).unwrap();
    cpu.set_sound_timer(3);
    let out = cpu.tick([false; 16]).unwrap();
    assert!(out.vram_changed);
    assert!(out.beep);
    assert_eq!(out.vram[0][0], 1);
    let out = cpu.tick([false; 16]).unwrap();
    assert!(out.vram_changed);
    assert_eq!(out.vram[0][0], 0);
    cpu.set_pc(0x300);
    let out = cpu.tick([false; 16]).unwrap();
    assert!(!out.vram_changed);
}

#[test]
fn host_keys_map_onto_the_pad() {
    assert_eq!(key_index('1'), Some(0x1));
    assert_eq!(key_index('4'), Some(0xC));
    assert_eq!(key_index('Q'), Some(0x4));
    assert_eq!(key_index('X'), Some(0x0));
    assert_eq!(key_index('V'), Some(0xF));
    assert_eq!(key_index('P'), None);
    let pad = keypad_state(&['1', 'V', 'P', '1']);
    for k in 0..16 {
        assert_eq!(pad[k], k == 0x1 || k == 0xF);
    }
    assert_eq!(keypad_state(&[]), [false; 16]);
}

#[test]
fn cartridge_holds_image_prefix() {
    let c = CartridgeDriver::from_image(&[1, 2, 3]);
    assert_eq!(c.size, 3);
    assert_eq!(&c.rom[..4], &[1, 2, 3, 0]);
    let long: Vec<u8> = (0..4000u32).map(|k| (k % 251) as u8).collect();
    let c = CartridgeDriver::from_image(&long);
    assert_eq!(c.size, ROM_SIZE);
    assert_eq!(c.rom[ROM_SIZE - 1], ((ROM_SIZE - 1) % 251) as u8);
}
