use chip8::model::{FONTSET_START_ADDRESS, MAX_IMAGE_SIZE, PIXEL_ON, START_ADDRESS};
use chip8::{Chip8, Fault};

/// A machine with `program` loaded at the start address.
fn with_program(program: &[u8]) -> Chip8 {
    let mut m = Chip8::new();
    m.load_rom(program).unwrap();
    m
}

fn run(m: &mut Chip8, steps: usize) {
    for _ in 0..steps {
        m.step(0).unwrap();
    }
}

#[test]
fn new_machine_has_font_and_start_address() {
    let m = Chip8::new();
    assert_eq!(m.pc, 0x200);
    assert_eq!(&m.memory[0x50..0x55], &[0xF0, 0x90, 0x90, 0x90, 0xF0]);
    assert_eq!(&m.memory[0x9B..0xA0], &[0xF0, 0x80, 0xF0, 0x80, 0x80]);
    assert_eq!(m.memory[0x4F], 0);
    assert_eq!(m.memory[0xA0], 0);
    assert!(m.registers.iter().all(|&r| r == 0));
    assert!(m.video.iter().all(|&p| p == 0));
    assert_eq!(m.sp, 0);
}

#[test]
fn load_rom_places_image_at_start_address() {
    let mut m = Chip8::new();
    let before = m.memory;
    let image: Vec<u8> = (0..300u32).map(|i| (i * 7 % 256) as u8).collect();
    assert_eq!(m.load_rom(&image), Ok(()));
    assert_eq!(&m.memory[0x200..0x200 + 300], &image[..]);
    assert_eq!(&m.memory[..0x200], &before[..0x200]);
    assert_eq!(&m.memory[0x200 + 300..], &before[0x200 + 300..]);
}

#[test]
fn load_rom_largest_image_fills_memory() {
    let mut m = Chip8::new();
    let image = vec![0xAB; MAX_IMAGE_SIZE];
    assert_eq!(m.load_rom(&image), Ok(()));
    assert!(m.memory[0x200..].iter().all(|&b| b == 0xAB));
    assert_eq!(m.memory[0x1FF], 0);
}

#[test]
fn load_rom_refuses_oversized_image() {
    let mut m = Chip8::new();
    let image = vec![0x11; MAX_IMAGE_SIZE + 1];
    assert_eq!(m.load_rom(&image), Err(Fault::ImageTooLarge));
    assert!(m.memory[0x200..].iter().all(|&b| b == 0));
}

#[test]
fn clear_then_load_register_scenario() {
    let mut m = with_program(&[0x00, 0xE0, 0x60, 0x05]);
    m.video[10] = PIXEL_ON;
    run(&mut m, 2);
    assert_eq!(m.registers[0], 5);
    assert!(m.video.iter().all(|&p| p == 0));
    assert_eq!(m.pc, 0x204);
}

#[test]
fn add_registers_with_carry_scenario() {
    let mut m = with_program(&[0x80, 0x14]);
    m.registers[0] = 200;
    m.registers[1] = 100;
    run(&mut m, 1);
    assert_eq!(m.registers[0], 44);
    assert_eq!(m.registers[0xF], 1);
}

#[test]
fn add_registers_without_carry() {
    let mut m = with_program(&[0x80, 0x14]);
    m.registers[0] = 200;
    m.registers[1] = 55;
    m.registers[0xF] = 7;
    run(&mut m, 1);
    assert_eq!(m.registers[0], 255);
    assert_eq!(m.registers[0xF], 0);
}

#[test]
fn subtract_registers_both_orders() {
    let mut m = with_program(&[0x80, 0x15, 0x82, 0x37]);
    m.registers[0] = 10;
    m.registers[1] = 3;
    m.registers[2] = 10;
    m.registers[3] = 3;
    run(&mut m, 1);
    assert_eq!(m.registers[0], 7);
    assert_eq!(m.registers[0xF], 1);
    run(&mut m, 1);
    assert_eq!(m.registers[2], 249);
    assert_eq!(m.registers[0xF], 0);
}

#[test]
fn subtract_equal_values_clears_flag() {
    let mut m = with_program(&[0x80, 0x15]);
    m.registers[0] = 9;
    m.registers[1] = 9;
    run(&mut m, 1);
    assert_eq!(m.registers[0], 0);
    assert_eq!(m.registers[0xF], 0);
}

#[test]
fn shifts_capture_the_bit_shifted_out() {
    let mut m = with_program(&[0x80, 0x06, 0x81, 0x0E]);
    m.registers[0] = 0b1000_0011;
    m.registers[1] = 0b1000_0011;
    run(&mut m, 1);
    assert_eq!(m.registers[0], 0b0100_0001);
    assert_eq!(m.registers[0xF], 1);
    run(&mut m, 1);
    assert_eq!(m.registers[1], 0b0000_0110);
    assert_eq!(m.registers[0xF], 1);
}

#[test]
fn bitwise_operations() {
    let mut m = with_program(&[0x80, 0x11, 0x82, 0x12, 0x84, 0x13, 0x86, 0x50]);
    m.registers[0] = 0b1100;
    m.registers[1] = 0b1010;
    m.registers[2] = 0b1100;
    m.registers[4] = 0b1100;
    m.registers[5] = 0x42;
    m.registers[3] = 0b1010;
    run(&mut m, 4);
    assert_eq!(m.registers[0], 0b1110);
    assert_eq!(m.registers[2], 0b1000);
    assert_eq!(m.registers[4], 0b1100 ^ 0b1010);
    assert_eq!(m.registers[6], 0x42);
}

#[test]
fn add_immediate_wraps_without_flag() {
    let mut m = with_program(&[0x73, 0x10]);
    m.registers[3] = 0xF8;
    m.registers[0xF] = 5;
    run(&mut m, 1);
    assert_eq!(m.registers[3], 0x08);
    assert_eq!(m.registers[0xF], 5);
}

#[test]
fn skips_follow_their_predicates() {
    // 3xkk taken, 4xkk not taken, 5xy0 taken, 9xy0 not taken.
    let mut m = with_program(&[0x30, 0x07]);
    m.registers[0] = 7;
    run(&mut m, 1);
    assert_eq!(m.pc, 0x204);

    let mut m = with_program(&[0x40, 0x07]);
    m.registers[0] = 7;
    run(&mut m, 1);
    assert_eq!(m.pc, 0x202);

    let mut m = with_program(&[0x40, 0x08]);
    m.registers[0] = 7;
    run(&mut m, 1);
    assert_eq!(m.pc, 0x204);

    let mut m = with_program(&[0x51, 0x20]);
    m.registers[1] = 4;
    m.registers[2] = 4;
    run(&mut m, 1);
    assert_eq!(m.pc, 0x204);

    let mut m = with_program(&[0x91, 0x20]);
    m.registers[1] = 4;
    m.registers[2] = 4;
    run(&mut m, 1);
    assert_eq!(m.pc, 0x202);
}

#[test]
fn jumps_and_index() {
    let mut m = with_program(&[0x13, 0x45]);
    run(&mut m, 1);
    assert_eq!(m.pc, 0x345);

    let mut m = with_program(&[0xB3, 0x00]);
    m.registers[0] = 0x10;
    run(&mut m, 1);
    assert_eq!(m.pc, 0x310);

    let mut m = with_program(&[0xA1, 0x23]);
    run(&mut m, 1);
    assert_eq!(m.index, 0x123);
    assert_eq!(m.pc, 0x202);
}

#[test]
fn call_then_return_resumes_after_call() {
    let mut program = vec![0x23, 0x00];
    program.resize(0x100, 0);
    program[0x100 - 2] = 0x00;
    program.extend_from_slice(&[0x00, 0xEE]);
    let mut m = with_program(&program);
    run(&mut m, 1);
    assert_eq!(m.pc, 0x300);
    assert_eq!(m.sp, 1);
    assert_eq!(m.stack[0], 0x202);
    run(&mut m, 1);
    assert_eq!(m.pc, 0x202);
    assert_eq!(m.sp, 0);
}

#[test]
fn return_with_empty_stack_faults() {
    let mut m = with_program(&[0x00, 0xEE]);
    assert_eq!(m.step(0), Err(Fault::StackUnderflow));
    assert_eq!(m.pc, 0x200);
    assert_eq!(m.opcode, 0);
}

#[test]
fn call_with_full_stack_faults() {
    let mut m = with_program(&[0x22, 0x00]);
    m.sp = 16;
    m.delay_timer = 3;
    assert_eq!(m.step(0), Err(Fault::StackOverflow));
    assert_eq!(m.pc, 0x200);
    assert_eq!(m.delay_timer, 3);
}

#[test]
fn fetch_past_memory_faults() {
    let mut m = Chip8::new();
    m.pc = 0xFFF;
    assert_eq!(m.step(0), Err(Fault::PcOutOfRange));
    assert_eq!(m.pc, 0xFFF);
}

#[test]
fn draw_past_memory_faults() {
    let mut m = with_program(&[0xD0, 0x15]);
    m.index = 0xFFC;
    assert_eq!(m.step(0), Err(Fault::MemoryOutOfRange));
    assert!(m.video.iter().all(|&p| p == 0));
}

#[test]
fn key_skip_with_bad_key_faults() {
    let mut m = with_program(&[0xE0, 0x9E]);
    m.registers[0] = 16;
    assert_eq!(m.step(0), Err(Fault::InvalidKey));
}

#[test]
fn store_past_memory_faults() {
    let mut m = with_program(&[0xF3, 0x55]);
    m.index = 0xFFD;
    assert_eq!(m.step(0), Err(Fault::MemoryOutOfRange));
    let mut m = with_program(&[0xF0, 0x33]);
    m.index = 0xFFE;
    assert_eq!(m.step(0), Err(Fault::MemoryOutOfRange));
}

#[test]
fn draw_font_glyph_and_redraw() {
    // V0 = 0, I = glyph of 0, draw at (0, 0), draw again.
    let mut m = with_program(&[0xF0, 0x29, 0xD0, 0x05, 0xD0, 0x05]);
    run(&mut m, 2);
    assert_eq!(m.index, FONTSET_START_ADDRESS);
    assert_eq!(m.registers[0xF], 0);
    // First row of the glyph is 0xF0: four lit pixels.
    assert_eq!(&m.video[0..8], &[PIXEL_ON, PIXEL_ON, PIXEL_ON, PIXEL_ON, 0, 0, 0, 0]);
    // Second row is 0x90.
    assert_eq!(&m.video[64..68], &[PIXEL_ON, 0, 0, PIXEL_ON]);
    run(&mut m, 1);
    assert_eq!(m.registers[0xF], 1);
    assert!(m.video.iter().all(|&p| p == 0));
}

#[test]
fn draw_wraps_at_the_edges() {
    let mut m = with_program(&[0xD0, 0x12, 0x00, 0x00, 0xFF, 0xFF]);
    m.index = 0x204;
    m.registers[0] = 60 + 64;
    m.registers[1] = 31;
    run(&mut m, 1);
    // Row 0 at y = 31, columns 60..63 then 0..3.
    for c in [60usize, 61, 62, 63, 0, 1, 2, 3] {
        assert_eq!(m.video[31 * 64 + c], PIXEL_ON);
        assert_eq!(m.video[c], PIXEL_ON);
    }
    assert_eq!(m.video[31 * 64 + 4], 0);
    assert_eq!(m.video[59], 0);
    assert_eq!(m.registers[0xF], 0);
}

#[test]
fn blank_sprite_after_clear_stays_blank() {
    let mut m = with_program(&[0x00, 0xE0, 0xD0, 0x1F]);
    m.index = 0x300;
    m.video[5] = PIXEL_ON;
    m.registers[0xF] = 1;
    run(&mut m, 2);
    assert!(m.video.iter().all(|&p| p == 0));
    assert_eq!(m.registers[0xF], 0);
}

#[test]
fn bcd_store_and_register_transfer() {
    let mut m = with_program(&[0xF2, 0x33, 0xF1, 0x55, 0xA4, 0x00, 0xF1, 0x65]);
    m.registers[2] = 254;
    m.index = 0x400;
    run(&mut m, 1);
    assert_eq!(&m.memory[0x400..0x403], &[2, 5, 4]);
    m.registers[0] = 9;
    m.registers[1] = 8;
    run(&mut m, 1);
    assert_eq!(&m.memory[0x400..0x403], &[9, 8, 4]);
    m.registers[0] = 0;
    m.registers[1] = 0;
    m.registers[2] = 77;
    run(&mut m, 2);
    assert_eq!(m.registers[0], 9);
    assert_eq!(m.registers[1], 8);
    assert_eq!(m.registers[2], 77);
}

#[test]
fn timers_and_index_arithmetic() {
    let mut m = with_program(&[0xF1, 0x15, 0xF1, 0x18, 0xF2, 0x07, 0xF1, 0x1E]);
    m.registers[1] = 10;
    run(&mut m, 1);
    assert_eq!(m.delay_timer, 9);
    run(&mut m, 1);
    assert_eq!(m.sound_timer, 9);
    assert_eq!(m.delay_timer, 8);
    run(&mut m, 1);
    assert_eq!(m.registers[2], 8);
    m.index = 0xFFFA;
    run(&mut m, 1);
    assert_eq!(m.index, 0x0004);
}

#[test]
fn timers_stop_at_zero() {
    let mut m = with_program(&[0x00, 0x00, 0x00, 0x00]);
    m.delay_timer = 1;
    run(&mut m, 2);
    assert_eq!(m.delay_timer, 0);
    assert_eq!(m.sound_timer, 0);
}

#[test]
fn unknown_words_do_nothing() {
    let mut m = with_program(&[0x80, 0x1F, 0xF0, 0xFF, 0xE0, 0x00]);
    let before_regs = m.registers;
    run(&mut m, 3);
    assert_eq!(m.registers, before_regs);
    assert_eq!(m.pc, 0x206);
}

#[test]
fn wait_for_key_busy_waits_until_pressed() {
    let mut m = with_program(&[0xF3, 0x0A]);
    for _ in 0..5 {
        run(&mut m, 1);
        assert_eq!(m.pc, 0x200);
    }
    m.keypad[0xB] = 1;
    m.keypad[0xD] = 1;
    run(&mut m, 1);
    assert_eq!(m.pc, 0x202);
    assert_eq!(m.registers[3], 0xB);
}

#[test]
fn key_skips() {
    let mut m = with_program(&[0xE1, 0x9E]);
    m.registers[1] = 4;
    m.keypad[4] = 1;
    run(&mut m, 1);
    assert_eq!(m.pc, 0x204);

    let mut m = with_program(&[0xE1, 0xA1]);
    m.registers[1] = 4;
    run(&mut m, 1);
    assert_eq!(m.pc, 0x204);

    let mut m = with_program(&[0xE1, 0xA1]);
    m.registers[1] = 4;
    m.keypad[4] = 1;
    run(&mut m, 1);
    assert_eq!(m.pc, 0x202);
}

#[test]
fn random_byte_is_masked() {
    let mut m = with_program(&[0xC0, 0x0F]);
    m.step(0xAB).unwrap();
    assert_eq!(m.registers[0], 0x0B);

    let mut m = with_program(&[0xC0, 0x00, 0xC1, 0x0F]);
    m.registers[0] = 0x55;
    m.cycle().unwrap();
    assert_eq!(m.registers[0], 0);
    m.cycle().unwrap();
    assert!(m.registers[1] <= 0x0F);
    assert_eq!(m.pc, START_ADDRESS + 4);
}

#[test]
fn subtract_with_flags_register_as_subtrahend() {
    let mut m = with_program(&[0x81, 0xF5]);
    m.registers[1] = 5;
    m.registers[0xF] = 3;
    run(&mut m, 1);
    assert_eq!(m.registers[1], 2);
    assert_eq!(m.registers[0xF], 1);

    let mut m = with_program(&[0x81, 0xF7]);
    m.registers[1] = 5;
    m.registers[0xF] = 3;
    run(&mut m, 1);
    assert_eq!(m.registers[1], 254);
    assert_eq!(m.registers[0xF], 0);
}

#[test]
fn subtract_into_flags_register_keeps_difference() {
    let mut m = with_program(&[0x8F, 0x15]);
    m.registers[0xF] = 9;
    m.registers[1] = 4;
    run(&mut m, 1);
    assert_eq!(m.registers[0xF], 5);
}
