use chip8::chip8::Chip8;

const NO_KEYS: [bool; 16] = [false; 16];

fn keys_with(pressed: &[usize]) -> [bool; 16] {
    let mut k = [false; 16];
    for &i in pressed {
        k[i] = true;
    }
    k
}

#[test]
fn load_immediate_then_jump() {
    // "load immediate 5 into register 0", then an infinite self-jump.
    let mut cpu = Chip8::new();
    let rom: Vec<u8> = vec![0x60, 0x05, 0x12, 0x02];
    cpu.load_rom(&rom);
    cpu.tick(NO_KEYS);
    assert_eq!(cpu.register(0), 5);
    assert_eq!(cpu.program_counter(), 0x202);
    // the jump spins in place
    cpu.tick(NO_KEYS);
    assert_eq!(cpu.program_counter(), 0x202);
}

#[test]
fn store_then_load_registers_round_trip() {
    let mut cpu = Chip8::new();
    let rom: Vec<u8> = vec![
        0x60, 0x0A, // v0 = 10
        0x61, 0x0B, // v1 = 11
        0x62, 0x0C, // v2 = 12
        0x63, 0x0D, // v3 = 13
        0xA3, 0x00, // index = 0x300
        0xF3, 0x55, // store v0..=v3 at index
        0x60, 0x00, // v0 = 0
        0x61, 0x00, // v1 = 0
        0x62, 0x00, // v2 = 0
        0x63, 0x00, // v3 = 0
        0xF3, 0x65, // load v0..=v3 back
        0x12, 0x16, // self-jump
    ];
    cpu.load_rom(&rom);
    for _ in 0..6 {
        cpu.tick(NO_KEYS);
    }
    assert_eq!(cpu.memory(0x300), 10);
    assert_eq!(cpu.memory(0x301), 11);
    assert_eq!(cpu.memory(0x302), 12);
    assert_eq!(cpu.memory(0x303), 13);
    for _ in 0..5 {
        cpu.tick(NO_KEYS);
    }
    assert_eq!(cpu.register(0), 10);
    assert_eq!(cpu.register(1), 11);
    assert_eq!(cpu.register(2), 12);
    assert_eq!(cpu.register(3), 13);
}

#[test]
fn add_registers_with_carry() {
    let mut cpu = Chip8::new();
    let rom: Vec<u8> = vec![
        0x60, 0xC8, // v0 = 200
        0x61, 0x64, // v1 = 100
        0x80, 0x14, // v0 += v1
    ];
    cpu.load_rom(&rom);
    for _ in 0..3 {
        cpu.tick(NO_KEYS);
    }
    assert_eq!(cpu.register(0), 44); // 300 mod 256
    assert_eq!(cpu.register(0xF), 1);
}

#[test]
fn add_registers_without_carry() {
    let mut cpu = Chip8::new();
    let rom: Vec<u8> = vec![0x60, 0x0A, 0x61, 0x14, 0x80, 0x14];
    cpu.load_rom(&rom);
    for _ in 0..3 {
        cpu.tick(NO_KEYS);
    }
    assert_eq!(cpu.register(0), 30);
    assert_eq!(cpu.register(0xF), 0);
}

#[test]
fn subtract_registers_with_borrow() {
    let mut cpu = Chip8::new();
    // 10 - 20: borrow (flag 0), result wraps to 246
    let rom: Vec<u8> = vec![0x60, 0x0A, 0x61, 0x14, 0x80, 0x15];
    cpu.load_rom(&rom);
    for _ in 0..3 {
        cpu.tick(NO_KEYS);
    }
    assert_eq!(cpu.register(0), 246);
    assert_eq!(cpu.register(0xF), 0);
}

#[test]
fn subtract_registers_without_borrow() {
    let mut cpu = Chip8::new();
    // 20 - 10: no borrow (flag 1), result 10
    let rom: Vec<u8> = vec![0x60, 0x14, 0x61, 0x0A, 0x80, 0x15];
    cpu.load_rom(&rom);
    for _ in 0..3 {
        cpu.tick(NO_KEYS);
    }
    assert_eq!(cpu.register(0), 10);
    assert_eq!(cpu.register(0xF), 1);
}

#[test]
fn clear_screen_zeroes_framebuffer_and_reports_change() {
    let mut cpu = Chip8::new();
    let rom: Vec<u8> = vec![
        0xA2, 0x06, // index = 0x206 (sprite byte below)
        0xD0, 0x01, // draw 1 byte at (v0, v0) = (0, 0)
        0x00, 0xE0, // clear screen
        0xFF, // sprite: one full row of pixels
    ];
    cpu.load_rom(&rom);
    cpu.tick(NO_KEYS);
    let out = cpu.tick(NO_KEYS);
    assert!(out.vram_changed);
    assert_eq!(out.vram[0], 1); // something was drawn
    let out = cpu.tick(NO_KEYS);
    assert!(out.vram_changed);
    assert!(out.vram.iter().all(|&c| c == 0));
}

#[test]
fn drawing_twice_restores_framebuffer() {
    let mut cpu = Chip8::new();
    let rom: Vec<u8> = vec![
        0x60, 0x03, // v0 = 3
        0x61, 0x05, // v1 = 5
        0xA2, 0x0A, // index = 0x20A (sprite below)
        0xD0, 0x12, // draw 2 bytes at (v0, v1)
        0xD0, 0x12, // draw the same sprite again
        0xFF, 0x81, // sprite data
    ];
    cpu.load_rom(&rom);
    for _ in 0..3 {
        cpu.tick(NO_KEYS);
    }
    let out = cpu.tick(NO_KEYS);
    assert!(out.vram_changed);
    assert_eq!(out.vram[5 * 64 + 3], 1);
    assert_eq!(cpu.register(0xF), 0); // nothing collided on a blank screen
    let out = cpu.tick(NO_KEYS);
    assert!(out.vram_changed);
    assert!(out.vram.iter().all(|&c| c == 0));
    assert_eq!(cpu.register(0xF), 1); // every drawn pixel collided
}

#[test]
fn sprite_wraps_around_both_axes() {
    let mut cpu = Chip8::new();
    let rom: Vec<u8> = vec![
        0x60, 0x3E, // v0 = 62 (two pixels from the right edge)
        0x61, 0x1F, // v1 = 31 (bottom row)
        0xA2, 0x08, // index = 0x208
        0xD0, 0x12, // draw 2 bytes at (62, 31)
        0xFF, 0xFF, // sprite data
    ];
    cpu.load_rom(&rom);
    for _ in 0..4 {
        cpu.tick(NO_KEYS);
    }
    // bottom row: columns 62, 63 then wrapping to 0..6
    assert_eq!(cpu.pixel(31, 62), 1);
    assert_eq!(cpu.pixel(31, 63), 1);
    assert_eq!(cpu.pixel(31, 0), 1);
    assert_eq!(cpu.pixel(31, 5), 1);
    // second sprite byte wraps to the top row
    assert_eq!(cpu.pixel(0, 62), 1);
    assert_eq!(cpu.pixel(0, 5), 1);
}

#[test]
fn call_then_return_resumes_after_call() {
    let mut cpu = Chip8::new();
    let rom: Vec<u8> = vec![
        0x22, 0x06, // call 0x206
        0x12, 0x02, // (next instruction after the call)
        0x00, 0x00, // padding
        0x00, 0xEE, // subroutine: return
    ];
    cpu.load_rom(&rom);
    cpu.tick(NO_KEYS);
    assert_eq!(cpu.program_counter(), 0x206);
    cpu.tick(NO_KEYS);
    assert_eq!(cpu.program_counter(), 0x202);
}

#[test]
fn skip_advances_two_instructions_when_triggered() {
    let mut cpu = Chip8::new();
    let rom: Vec<u8> = vec![0x30, 0x00]; // skip if v0 == 0 (it is)
    cpu.load_rom(&rom);
    cpu.tick(NO_KEYS);
    assert_eq!(cpu.program_counter(), 0x204);
}

#[test]
fn skip_advances_one_instruction_when_not_triggered() {
    let mut cpu = Chip8::new();
    let rom: Vec<u8> = vec![0x30, 0x01]; // skip if v0 == 1 (it is not)
    cpu.load_rom(&rom);
    cpu.tick(NO_KEYS);
    assert_eq!(cpu.program_counter(), 0x202);
}

#[test]
fn waiting_tick_with_no_key_changes_nothing() {
    let mut cpu = Chip8::new();
    let rom: Vec<u8> = vec![
        0x62, 0x07, // v2 = 7
        0xF2, 0x15, // delay timer = v2
        0xF0, 0x0A, // wait for a key into v0
    ];
    cpu.load_rom(&rom);
    for _ in 0..3 {
        cpu.tick(NO_KEYS);
    }
    let pc = cpu.program_counter();
    let delay = cpu.delay_timer();
    let v0 = cpu.register(0);
    let out = cpu.tick(NO_KEYS);
    assert!(!out.vram_changed);
    assert_eq!(cpu.program_counter(), pc);
    assert_eq!(cpu.delay_timer(), delay);
    assert_eq!(cpu.register(0), v0);
}

#[test]
fn waiting_tick_resolves_on_lowest_pressed_key() {
    let mut cpu = Chip8::new();
    let rom: Vec<u8> = vec![0xF0, 0x0A]; // wait for a key into v0
    cpu.load_rom(&rom);
    cpu.tick(NO_KEYS);
    cpu.tick(NO_KEYS); // still waiting
    let pc = cpu.program_counter();
    cpu.tick(keys_with(&[9, 4])); // lowest pressed key wins
    assert_eq!(cpu.register(0), 4);
    assert_eq!(cpu.program_counter(), pc); // no instruction ran this tick
}

#[test]
fn delay_timer_counts_down_to_zero_and_stops() {
    let mut cpu = Chip8::new();
    let rom: Vec<u8> = vec![
        0x62, 0x02, // v2 = 2
        0xF2, 0x15, // delay timer = v2
        0x12, 0x04, // self-jump
    ];
    cpu.load_rom(&rom);
    cpu.tick(NO_KEYS);
    cpu.tick(NO_KEYS);
    assert_eq!(cpu.delay_timer(), 2);
    cpu.tick(NO_KEYS);
    cpu.tick(NO_KEYS);
    cpu.tick(NO_KEYS);
    assert_eq!(cpu.delay_timer(), 0);
    cpu.tick(NO_KEYS);
    assert_eq!(cpu.delay_timer(), 0); // never goes negative or wraps
}

#[test]
fn sound_timer_drives_beep() {
    let mut cpu = Chip8::new();
    let rom: Vec<u8> = vec![
        0x62, 0x02, // v2 = 2
        0xF2, 0x18, // sound timer = v2
        0x12, 0x04, // self-jump
    ];
    cpu.load_rom(&rom);
    cpu.tick(NO_KEYS);
    let out = cpu.tick(NO_KEYS);
    assert!(out.beep);
    let out = cpu.tick(NO_KEYS);
    assert!(out.beep);
    let out = cpu.tick(NO_KEYS);
    assert!(!out.beep);
}

#[test]
fn random_masked_with_zero_is_zero() {
    let mut cpu = Chip8::new();
    let rom: Vec<u8> = vec![
        0x61, 0xFF, // v1 = 255
        0xC1, 0x00, // v1 = random byte AND 0
    ];
    cpu.load_rom(&rom);
    cpu.tick(NO_KEYS);
    cpu.tick(NO_KEYS);
    assert_eq!(cpu.register(1), 0);
}

#[test]
fn bcd_digits_written_at_index() {
    let mut cpu = Chip8::new();
    let rom: Vec<u8> = vec![
        0x60, 0x7B, // v0 = 123
        0xA3, 0x00, // index = 0x300
        0xF0, 0x33, // store BCD of v0
    ];
    cpu.load_rom(&rom);
    for _ in 0..3 {
        cpu.tick(NO_KEYS);
    }
    assert_eq!(cpu.memory(0x300), 1);
    assert_eq!(cpu.memory(0x301), 2);
    assert_eq!(cpu.memory(0x302), 3);
}

#[test]
fn font_glyphs_present_at_construction() {
    let cpu = Chip8::new();
    // first bytes of the glyph table at 0x50
    assert_eq!(cpu.memory(0x50), 0xF0);
    assert_eq!(cpu.memory(0x51), 0x90);
    // last glyph byte
    assert_eq!(cpu.memory(0x50 + 79), 0x80);
}

#[test]
fn shift_right_keeps_low_bit_in_flag() {
    let mut cpu = Chip8::new();
    let rom: Vec<u8> = vec![
        0x60, 0x05, // v0 = 5
        0x80, 0x06, // v0 >>= 1
    ];
    cpu.load_rom(&rom);
    cpu.tick(NO_KEYS);
    cpu.tick(NO_KEYS);
    assert_eq!(cpu.register(0), 2);
    assert_eq!(cpu.register(0xF), 1);
}

#[test]
fn shift_left_keeps_high_bit_in_flag() {
    let mut cpu = Chip8::new();
    let rom: Vec<u8> = vec![
        0x60, 0x81, // v0 = 0x81
        0x80, 0x0E, // v0 <<= 1
    ];
    cpu.load_rom(&rom);
    cpu.tick(NO_KEYS);
    cpu.tick(NO_KEYS);
    assert_eq!(cpu.register(0), 0x02);
    assert_eq!(cpu.register(0xF), 1);
}

#[test]
fn unrecognized_opcode_advances_counter() {
    let mut cpu = Chip8::new();
    let rom: Vec<u8> = vec![0x01, 0x23]; // no instruction has this pattern
    cpu.load_rom(&rom);
    let before = cpu.register(0);
    cpu.tick(NO_KEYS);
    assert_eq!(cpu.program_counter(), 0x202);
    assert_eq!(cpu.register(0), before);
}

#[test]
fn emulator_handle_constructs() {
    let _e = chip8::emulator::Emulator::new();
}
