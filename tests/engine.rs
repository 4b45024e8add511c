use chip8::chip8::{Chip8, Fault, GAME_ROM_OFFSET, SCREEN_HEIGHT, SCREEN_WIDTH};
use chip8::io::Random;

/// Hands out a fixed byte and counts how often it was asked.
struct FixedRandom {
    byte: u8,
    calls: usize,
}

impl Random for FixedRandom {
    fn randint(&mut self) -> u8 {
        self.calls += 1;
        self.byte
    }
}

fn machine(program: &[u8]) -> Chip8<FixedRandom> {
    Chip8::new(program, FixedRandom { byte: 0xF0, calls: 0 })
}

fn run(m: &mut Chip8<FixedRandom>, steps: usize) {
    for _ in 0..steps {
        m.execute_instruction().unwrap();
    }
}

fn lit_pixels(m: &Chip8<FixedRandom>) -> usize {
    let mut n = 0;
    for y in 0..SCREEN_HEIGHT {
        for x in 0..SCREEN_WIDTH {
            if m.get_pixel(x, y) {
                n += 1;
            }
        }
    }
    n
}

#[test]
fn new_loads_font_and_program() {
    let m = machine(&[0x12, 0x34, 0x56]);
    assert_eq!(m.pc(), 0x200);
    assert_eq!(m.index(), 0);
    assert_eq!(m.memory_at(0), 0xF0);
    assert_eq!(m.memory_at(5), 0x20);
    assert_eq!(m.memory_at(79), 0x80);
    assert_eq!(m.memory_at(80), 0);
    assert_eq!(m.memory_at(GAME_ROM_OFFSET), 0x12);
    assert_eq!(m.memory_at(GAME_ROM_OFFSET + 2), 0x56);
    assert_eq!(m.memory_at(GAME_ROM_OFFSET + 3), 0);
    assert_eq!(m.stack_depth(), 0);
    assert_eq!(lit_pixels(&m), 0);
    assert_eq!(m.current_instruction(), Some((0x12, 0x34)));
}

#[test]
fn new_accepts_the_largest_image() {
    let game = vec![0xAB; 4096 - 0x200];
    let m = machine(&game);
    assert_eq!(m.memory_at(4095), 0xAB);
}

#[test]
fn load_then_copy_reaches_other_register() {
    for b in [0u8, 1, 0x7F, 0xAB, 0xFF] {
        let mut m = machine(&[0x63, b, 0x85, 0x30]);
        run(&mut m, 2);
        assert_eq!(m.register(5), b);
        assert_eq!(m.register(3), b);
        assert_eq!(m.pc(), 0x204);
    }
}

#[test]
fn add_sets_carry_on_overflow() {
    let mut m = machine(&[0x60, 0xFF, 0x61, 0x02, 0x80, 0x14]);
    run(&mut m, 3);
    assert_eq!(m.register(0), 1);
    assert_eq!(m.register(15), 1);
}

#[test]
fn add_clears_carry_without_overflow() {
    let mut m = machine(&[0x6F, 0x01, 0x60, 0x10, 0x61, 0x20, 0x80, 0x14]);
    run(&mut m, 4);
    assert_eq!(m.register(0), 0x30);
    assert_eq!(m.register(15), 0);
}

#[test]
fn add_byte_wraps_without_flag() {
    let mut m = machine(&[0x6F, 0x07, 0x60, 0xFF, 0x70, 0x03]);
    run(&mut m, 3);
    assert_eq!(m.register(0), 2);
    assert_eq!(m.register(15), 7);
}

#[test]
fn sub_sets_flag_without_borrow() {
    let mut m = machine(&[0x60, 0x05, 0x61, 0x03, 0x80, 0x15]);
    run(&mut m, 3);
    assert_eq!(m.register(0), 2);
    assert_eq!(m.register(15), 1);
}

#[test]
fn sub_clears_flag_on_borrow() {
    let mut m = machine(&[0x60, 0x03, 0x61, 0x05, 0x80, 0x15]);
    run(&mut m, 3);
    assert_eq!(m.register(0), 254);
    assert_eq!(m.register(15), 0);
}

#[test]
fn sub_of_equal_values_has_no_borrow() {
    let mut m = machine(&[0x60, 0x09, 0x61, 0x09, 0x80, 0x15]);
    run(&mut m, 3);
    assert_eq!(m.register(0), 0);
    assert_eq!(m.register(15), 1);
}

#[test]
fn subn_subtracts_the_other_way() {
    let mut m = machine(&[0x60, 0x03, 0x61, 0x05, 0x80, 0x17]);
    run(&mut m, 3);
    assert_eq!(m.register(0), 2);
    assert_eq!(m.register(15), 1);
    let mut m = machine(&[0x60, 0x05, 0x61, 0x03, 0x80, 0x17]);
    run(&mut m, 3);
    assert_eq!(m.register(0), 254);
    assert_eq!(m.register(15), 0);
}

#[test]
fn shifts_read_the_second_register() {
    let mut m = machine(&[0x60, 0x00, 0x61, 0x81, 0x80, 0x16]);
    run(&mut m, 3);
    assert_eq!(m.register(0), 0x40);
    assert_eq!(m.register(1), 0x81);
    assert_eq!(m.register(15), 1);
    let mut m = machine(&[0x61, 0x81, 0x80, 0x1E]);
    run(&mut m, 2);
    assert_eq!(m.register(0), 0x02);
    assert_eq!(m.register(15), 1);
    let mut m = machine(&[0x61, 0x40, 0x80, 0x1E]);
    run(&mut m, 2);
    assert_eq!(m.register(0), 0x80);
    assert_eq!(m.register(15), 0);
}

#[test]
fn bitwise_operations() {
    let mut m = machine(&[0x60, 0xCC, 0x61, 0xAA, 0x82, 0x00, 0x82, 0x11]);
    run(&mut m, 4);
    assert_eq!(m.register(2), 0xEE);
    let mut m = machine(&[0x60, 0xCC, 0x61, 0xAA, 0x80, 0x12]);
    run(&mut m, 3);
    assert_eq!(m.register(0), 0x88);
    let mut m = machine(&[0x60, 0xCC, 0x61, 0xAA, 0x80, 0x13]);
    run(&mut m, 3);
    assert_eq!(m.register(0), 0x66);
}

#[test]
fn skips_on_conditions() {
    // SE V0, 05 skips; SNE V0, 05 does not.
    let mut m = machine(&[0x60, 0x05, 0x30, 0x05]);
    run(&mut m, 2);
    assert_eq!(m.pc(), 0x206);
    let mut m = machine(&[0x60, 0x05, 0x40, 0x05]);
    run(&mut m, 2);
    assert_eq!(m.pc(), 0x204);
    let mut m = machine(&[0x60, 0x05, 0x61, 0x05, 0x50, 0x10]);
    run(&mut m, 3);
    assert_eq!(m.pc(), 0x208);
    let mut m = machine(&[0x60, 0x05, 0x61, 0x05, 0x90, 0x10]);
    run(&mut m, 3);
    assert_eq!(m.pc(), 0x206);
}

#[test]
fn jumps_calls_and_returns() {
    // 200: CALL 206; 202: JP 20A; 206: RET
    let mut m = machine(&[0x22, 0x06, 0x12, 0x0A, 0x00, 0x00, 0x00, 0xEE]);
    m.execute_instruction().unwrap();
    assert_eq!(m.pc(), 0x206);
    assert_eq!(m.stack_depth(), 1);
    m.execute_instruction().unwrap();
    assert_eq!(m.pc(), 0x202);
    assert_eq!(m.stack_depth(), 0);
    m.execute_instruction().unwrap();
    assert_eq!(m.pc(), 0x20A);
}

#[test]
fn jump_with_offset_adds_v0() {
    let mut m = machine(&[0x60, 0x10, 0xB3, 0x00]);
    run(&mut m, 2);
    assert_eq!(m.pc(), 0x310);
}

#[test]
fn return_on_empty_stack_faults() {
    let mut m = machine(&[0x00, 0xEE]);
    assert_eq!(m.execute_instruction(), Err(Fault::StackUnderflow { address: 0x200 }));
    assert_eq!(m.pc(), 0x200);
}

#[test]
fn seventeenth_nested_call_faults() {
    // 200: CALL 200, over and over.
    let mut m = machine(&[0x22, 0x00]);
    run(&mut m, 16);
    assert_eq!(m.stack_depth(), 16);
    assert_eq!(m.execute_instruction(), Err(Fault::StackOverflow { address: 0x200 }));
    assert_eq!(m.stack_depth(), 16);
    assert_eq!(m.pc(), 0x200);
}

#[test]
fn fetch_past_memory_end_faults() {
    let mut m = machine(&[0x1F, 0xFF]);
    m.execute_instruction().unwrap();
    assert_eq!(m.pc(), 0xFFF);
    assert_eq!(m.current_instruction(), None);
    assert_eq!(m.execute_instruction(), Err(Fault::MemoryOutOfRange { address: 0xFFF }));
}

#[test]
fn random_masks_the_drawn_byte() {
    let mut m = machine(&[0xC0, 0x3C, 0x61, 0x01]);
    run(&mut m, 2);
    assert_eq!(m.register(0), 0x30);
}

#[test]
fn only_the_random_instruction_draws() {
    let mut m = Chip8::new(&[0x60, 0x01, 0xC1, 0xFF, 0x62, 0x01], FixedRandom { byte: 0x5A, calls: 0 });
    m.execute_instruction().unwrap();
    m.execute_instruction().unwrap();
    m.execute_instruction().unwrap();
    assert_eq!(m.register(1), 0x5A);
}

#[test]
fn draw_twice_restores_frame_and_collides() {
    // V0 = V1 = 0; I = glyph of 0; draw it twice.
    let mut m = machine(&[0xA0, 0x00, 0xD0, 0x15, 0xD0, 0x15]);
    run(&mut m, 2);
    assert_eq!(m.register(15), 0);
    assert_eq!(lit_pixels(&m), 14);
    assert!(m.get_pixel(0, 0));
    assert!(m.get_pixel(3, 0));
    assert!(!m.get_pixel(4, 0));
    assert!(!m.get_pixel(1, 1));
    m.execute_instruction().unwrap();
    assert_eq!(m.register(15), 1);
    assert_eq!(lit_pixels(&m), 0);
}

#[test]
fn draw_wraps_horizontally_within_the_row() {
    // V0 = 60, V1 = 0, I = 20A, draw one row 0xFF.
    let mut m = machine(&[0x60, 0x3C, 0x61, 0x00, 0xA2, 0x0A, 0xD0, 0x11, 0x00, 0x00, 0xFF]);
    run(&mut m, 4);
    for x in 60..64 {
        assert!(m.get_pixel(x, 0));
    }
    for x in 0..4 {
        assert!(m.get_pixel(x, 0));
    }
    assert!(!m.get_pixel(4, 0));
    assert!(!m.get_pixel(59, 0));
    assert!(!m.get_pixel(0, 1));
    assert_eq!(lit_pixels(&m), 8);
    assert_eq!(m.register(15), 0);
}

#[test]
fn draw_wraps_vertically() {
    // V0 = 0, V1 = 31, I = glyph of 0 (five rows).
    let mut m = machine(&[0x60, 0x00, 0x61, 0x1F, 0xA0, 0x00, 0xD0, 0x15]);
    run(&mut m, 4);
    assert!(m.get_pixel(0, 31));
    assert!(m.get_pixel(0, 0));
    assert!(m.get_pixel(0, 3));
    assert!(!m.get_pixel(0, 4));
}

#[test]
fn draw_past_memory_end_faults() {
    // I = FFF, draw two rows.
    let mut m = machine(&[0xAF, 0xFF, 0xD0, 0x02]);
    m.execute_instruction().unwrap();
    assert_eq!(m.execute_instruction(), Err(Fault::MemoryOutOfRange { address: 0x202 }));
    assert_eq!(lit_pixels(&m), 0);
}

#[test]
fn clear_screen_turns_pixels_off() {
    let mut m = machine(&[0xA0, 0x00, 0xD0, 0x15, 0x00, 0xE0]);
    run(&mut m, 3);
    assert_eq!(lit_pixels(&m), 0);
}

#[test]
fn store_advances_index_by_count() {
    let mut m = machine(&[0x60, 0x11, 0x61, 0x22, 0x62, 0x33, 0x63, 0x44, 0xA3, 0x00, 0xF3, 0x55]);
    run(&mut m, 6);
    assert_eq!(m.index(), 0x304);
    assert_eq!(m.memory_at(0x300), 0x11);
    assert_eq!(m.memory_at(0x303), 0x44);
    assert_eq!(m.memory_at(0x304), 0);
}

#[test]
fn load_advances_index_by_count() {
    // I = 20A, load V0..=V1 from the two bytes there.
    let mut m = machine(&[0x62, 0x77, 0xA2, 0x0A, 0xF1, 0x65, 0x00, 0x00, 0x00, 0x00, 0xAB, 0xCD]);
    run(&mut m, 3);
    assert_eq!(m.index(), 0x20C);
    assert_eq!(m.register(0), 0xAB);
    assert_eq!(m.register(1), 0xCD);
    assert_eq!(m.register(2), 0x77);
}

#[test]
fn store_past_memory_end_faults() {
    let mut m = machine(&[0xAF, 0xFE, 0xF2, 0x55]);
    m.execute_instruction().unwrap();
    assert_eq!(m.execute_instruction(), Err(Fault::MemoryOutOfRange { address: 0x202 }));
    assert_eq!(m.index(), 0xFFE);
    assert_eq!(m.memory_at(0xFFE), 0);
}

#[test]
fn bcd_of_157() {
    let mut m = machine(&[0x60, 0x9D, 0xA3, 0x00, 0xF0, 0x33]);
    run(&mut m, 3);
    assert_eq!(m.memory_at(0x300), 1);
    assert_eq!(m.memory_at(0x301), 5);
    assert_eq!(m.memory_at(0x302), 7);
}

#[test]
fn bcd_past_memory_end_faults() {
    let mut m = machine(&[0xAF, 0xFE, 0xF0, 0x33]);
    m.execute_instruction().unwrap();
    assert_eq!(m.execute_instruction(), Err(Fault::MemoryOutOfRange { address: 0x202 }));
}

#[test]
fn font_character_address() {
    let mut m = machine(&[0x60, 0x0F, 0xF0, 0x29]);
    run(&mut m, 2);
    assert_eq!(m.index(), 75);
    let mut m = machine(&[0x60, 0xFF, 0xF0, 0x29]);
    run(&mut m, 2);
    assert_eq!(m.index(), 1275);
}

#[test]
fn add_to_index_records_carry() {
    // I = FFF, V0 = FF; 204: ADD I, V0; 206: JP 204.
    let mut m = machine(&[0xAF, 0xFF, 0x60, 0xFF, 0xF0, 0x1E, 0x12, 0x04]);
    run(&mut m, 3);
    assert_eq!(m.index(), 0x10FE);
    assert_eq!(m.register(15), 0);
    let mut wrapped = false;
    for _ in 0..300 {
        run(&mut m, 2);
        if m.register(15) == 1 {
            wrapped = true;
            break;
        }
    }
    assert!(wrapped);
    assert!(m.index() < 0xFF);
}

#[test]
fn wait_key_stalls_then_takes_lowest() {
    let mut m = machine(&[0xF3, 0x0A]);
    for _ in 0..3 {
        m.execute_instruction().unwrap();
        assert_eq!(m.pc(), 0x200);
        assert_eq!(m.register(3), 0);
    }
    m.set_key(7, true);
    m.set_key(4, true);
    m.execute_instruction().unwrap();
    assert_eq!(m.pc(), 0x202);
    assert_eq!(m.register(3), 4);
}

#[test]
fn skip_on_key_state() {
    let mut m = machine(&[0x60, 0x05, 0xE0, 0x9E]);
    m.set_key(5, true);
    run(&mut m, 2);
    assert_eq!(m.pc(), 0x206);
    let mut m = machine(&[0x60, 0x05, 0xE0, 0xA1]);
    run(&mut m, 2);
    assert_eq!(m.pc(), 0x206);
    let mut m = machine(&[0x60, 0x05, 0xE0, 0xA1]);
    m.set_key(5, true);
    run(&mut m, 2);
    assert_eq!(m.pc(), 0x204);
}

#[test]
fn key_test_on_out_of_range_value_faults() {
    let mut m = machine(&[0x60, 0x10, 0xE0, 0x9E]);
    m.execute_instruction().unwrap();
    assert_eq!(m.execute_instruction(), Err(Fault::KeyOutOfRange { address: 0x202, key: 0x10 }));
}

#[test]
fn set_key_ignores_out_of_range() {
    let mut m = machine(&[0xF0, 0x0A]);
    m.set_key(16, true);
    m.set_key(200, true);
    m.execute_instruction().unwrap();
    assert_eq!(m.pc(), 0x200);
    m.set_key(15, true);
    m.set_key(15, false);
    m.execute_instruction().unwrap();
    assert_eq!(m.pc(), 0x200);
}

#[test]
fn unknown_instruction_faults_without_change() {
    let mut m = machine(&[0x60, 0x42, 0x01, 0x23]);
    m.execute_instruction().unwrap();
    assert_eq!(
        m.execute_instruction(),
        Err(Fault::UnknownInstruction { address: 0x202, word: 0x0123 })
    );
    assert_eq!(m.pc(), 0x202);
    assert_eq!(m.register(0), 0x42);
    assert_eq!(
        m.execute_instruction(),
        Err(Fault::UnknownInstruction { address: 0x202, word: 0x0123 })
    );
}

#[test]
fn unknown_alu_and_f_instructions_fault() {
    let mut m = machine(&[0x80, 0x18]);
    assert_eq!(m.execute_instruction(), Err(Fault::UnknownInstruction { address: 0x200, word: 0x8018 }));
    let mut m = machine(&[0xF0, 0x99]);
    assert_eq!(m.execute_instruction(), Err(Fault::UnknownInstruction { address: 0x200, word: 0xF099 }));
    let mut m = machine(&[0x51, 0x21]);
    assert_eq!(m.execute_instruction(), Err(Fault::UnknownInstruction { address: 0x200, word: 0x5121 }));
}

#[test]
fn timers_move_between_registers() {
    let mut m = machine(&[0x60, 0x03, 0xF0, 0x15, 0xF0, 0x18, 0xF1, 0x07]);
    run(&mut m, 4);
    assert_eq!(m.delay(), 3);
    assert_eq!(m.sound(), 3);
    assert_eq!(m.register(1), 3);
}

#[test]
fn delay_counts_down_to_zero() {
    let mut m = machine(&[0x60, 0x02, 0xF0, 0x15]);
    run(&mut m, 2);
    m.decrement_delay();
    assert_eq!(m.delay(), 1);
    m.decrement_delay();
    assert_eq!(m.delay(), 0);
    m.decrement_delay();
    assert_eq!(m.delay(), 0);
}

#[test]
fn sound_tick_reports_running_timer() {
    let mut m = machine(&[0x60, 0x02, 0xF0, 0x18]);
    assert!(!m.sound_tick());
    run(&mut m, 2);
    assert!(m.sound_tick());
    assert_eq!(m.sound(), 1);
    assert!(m.sound_tick());
    assert_eq!(m.sound(), 0);
    assert!(!m.sound_tick());
    assert_eq!(m.sound(), 0);
}
