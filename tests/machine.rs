use puce8::model::{FLAG, MAX_PROGRAM_LEN, PROGRAM_START};
use puce8::{Chip8, Chip8Error, Chip8Keys};

fn load(bytes: &[u8]) -> Chip8 {
    Chip8::new(&bytes.to_vec(), 700).unwrap()
}

fn run(c: &mut Chip8, steps: usize) {
    for _ in 0..steps {
        c.step().unwrap();
    }
}

#[test]
fn new_loads_font_and_program() {
    let c = load(&[0x12, 0x34]);
    assert_eq!(c.pc(), 0x200);
    assert_eq!(c.memory(0x200), 0x12);
    assert_eq!(c.memory(0x201), 0x34);
    assert_eq!(c.memory(0x202), 0);
    assert_eq!(c.memory(0x050), 0xF0);
    assert_eq!(c.memory(0x09F), 0x80);
    assert_eq!(c.memory(0x0A0), 0);
    assert_eq!(c.index(), 0);
    assert_eq!(c.stack_depth(), 0);
    assert!(c.vram().iter().all(|p| !p));
    assert_eq!(c.vram().len(), 2048);
    assert!(!c.is_sound_playing());
}

#[test]
fn new_accepts_largest_program() {
    let bin = vec![0xAB; MAX_PROGRAM_LEN];
    let c = Chip8::new(&bin, 700).unwrap();
    assert_eq!(c.memory(0xFFF), 0xAB);
    assert_eq!(c.memory(PROGRAM_START), 0xAB);
}

#[test]
fn new_refuses_too_large_program() {
    let bin = vec![0; MAX_PROGRAM_LEN + 1];
    match Chip8::new(&bin, 700) {
        Err(e) => assert_eq!(e, Chip8Error::ProgramTooLarge { len: 3585 }),
        Ok(_) => panic!("program of 3585 bytes was accepted"),
    }
}

#[test]
fn load_then_add_wraps() {
    let mut c = load(&[0x63, 0xF0, 0x73, 0x20]);
    run(&mut c, 2);
    assert_eq!(c.register(3), 0x10);
    assert_eq!(c.register(FLAG), 0);
}

#[test]
fn load_then_add_without_wrap() {
    let mut c = load(&[0x6A, 0x05, 0x7A, 0x07]);
    run(&mut c, 2);
    assert_eq!(c.register(0xA), 12);
}

#[test]
fn clear_display_after_draw() {
    // i = glyph of 0, draw it, then clear.
    let mut c = load(&[0xA0, 0x50, 0xD0, 0x05, 0x00, 0xE0]);
    run(&mut c, 2);
    assert!(c.vram().iter().any(|p| *p));
    assert_eq!(c.step(), Ok(false));
    assert!(c.vram().iter().all(|p| !p));
}

#[test]
fn call_then_return() {
    // 0x200: call 0x206; 0x202: load V1; 0x206: return.
    let mut c = load(&[0x22, 0x06, 0x61, 0x01, 0x00, 0x00, 0x00, 0xEE]);
    c.step().unwrap();
    assert_eq!(c.pc(), 0x206);
    assert_eq!(c.stack_depth(), 1);
    c.step().unwrap();
    assert_eq!(c.pc(), 0x202);
    assert_eq!(c.stack_depth(), 0);
    c.step().unwrap();
    assert_eq!(c.register(1), 1);
}

#[test]
fn add_with_carry_sets_flag() {
    let mut c = load(&[0x60, 0xFF, 0x61, 0x01, 0x80, 0x14]);
    run(&mut c, 3);
    assert_eq!(c.register(0), 0);
    assert_eq!(c.register(FLAG), 1);
}

#[test]
fn add_without_carry_clears_flag() {
    let mut c = load(&[0x6F, 0x01, 0x60, 0xFE, 0x61, 0x01, 0x80, 0x14]);
    run(&mut c, 4);
    assert_eq!(c.register(0), 0xFF);
    assert_eq!(c.register(FLAG), 0);
}

#[test]
fn subtract_with_borrow_flags() {
    // 5 - 7 borrows, 7 - 5 does not.
    let mut c = load(&[0x60, 0x05, 0x61, 0x07, 0x80, 0x15, 0x62, 0x07, 0x63, 0x05, 0x82, 0x35]);
    run(&mut c, 3);
    assert_eq!(c.register(0), 0xFE);
    assert_eq!(c.register(FLAG), 0);
    run(&mut c, 3);
    assert_eq!(c.register(2), 2);
    assert_eq!(c.register(FLAG), 1);
}

#[test]
fn subtract_equal_operands_sets_flag() {
    let mut c = load(&[0x60, 0x09, 0x61, 0x09, 0x80, 0x15]);
    run(&mut c, 3);
    assert_eq!(c.register(0), 0);
    assert_eq!(c.register(FLAG), 1);
}

#[test]
fn reverse_subtract() {
    let mut c = load(&[0x60, 0x07, 0x61, 0x05, 0x80, 0x17]);
    run(&mut c, 3);
    assert_eq!(c.register(0), 0xFE);
    assert_eq!(c.register(FLAG), 0);
}

#[test]
fn shifts_read_vy() {
    // V1 = 0x81; V0 = V1 >> 1; V2 = V1 << 1.
    let mut c = load(&[0x61, 0x81, 0x80, 0x16, 0x82, 0x1E]);
    run(&mut c, 2);
    assert_eq!(c.register(0), 0x40);
    assert_eq!(c.register(FLAG), 1);
    run(&mut c, 1);
    assert_eq!(c.register(2), 0x02);
    assert_eq!(c.register(FLAG), 1);
    assert_eq!(c.register(1), 0x81);
}

#[test]
fn bitwise_ops() {
    let mut c = load(&[
        0x60, 0xCC, 0x61, 0xAA, 0x82, 0x00, 0x82, 0x11, 0x83, 0x00, 0x83, 0x12, 0x84, 0x00, 0x84, 0x13,
        0x85, 0x10,
    ]);
    run(&mut c, 9);
    assert_eq!(c.register(2), 0xEE);
    assert_eq!(c.register(3), 0x88);
    assert_eq!(c.register(4), 0x66);
    assert_eq!(c.register(5), 0xAA);
}

#[test]
fn draw_twice_restores_display() {
    let mut c = load(&[0xA0, 0x50, 0x60, 0x3E, 0x61, 0x1F, 0xD0, 0x15, 0xD0, 0x15]);
    run(&mut c, 3);
    assert_eq!(c.step(), Ok(true));
    assert_eq!(c.register(FLAG), 0);
    // The glyph wraps around both edges: its corner is at column 62, row 31.
    assert!(c.vram()[31 * 64 + 62]);
    assert!(c.vram()[31 * 64 + 1]);
    assert!(c.vram()[0 * 64 + 62]);
    assert_eq!(c.step(), Ok(true));
    assert_eq!(c.register(FLAG), 1);
    assert!(c.vram().iter().all(|p| !p));
}

#[test]
fn draw_onto_blank_cells_reports_no_collision() {
    // Glyphs of 0 and 1 overlap: the second draw clears some cells.
    let mut c = load(&[0xA0, 0x50, 0xD0, 0x05, 0xA0, 0x5A, 0xD0, 0x05]);
    run(&mut c, 2);
    assert_eq!(c.register(FLAG), 0);
    run(&mut c, 2);
    assert_eq!(c.register(FLAG), 1);
}

#[test]
fn store_digits_of_234() {
    let mut c = load(&[0x60, 0xEA, 0xA3, 0x00, 0xF0, 0x33]);
    run(&mut c, 3);
    assert_eq!(c.memory(0x300), 2);
    assert_eq!(c.memory(0x301), 3);
    assert_eq!(c.memory(0x302), 4);
    assert_eq!(c.index(), 0x300);
}

#[test]
fn register_dump_and_load_are_inclusive() {
    // V0..V2 = 1, 2, 3; dump V0..=V2 at 0x300; clear; load V0..=V1 back.
    let mut c = load(&[
        0x60, 0x01, 0x61, 0x02, 0x62, 0x03, 0xA3, 0x00, 0xF2, 0x55, 0x60, 0x00, 0x61, 0x00, 0x62, 0x00,
        0xF1, 0x65,
    ]);
    run(&mut c, 5);
    assert_eq!(c.memory(0x300), 1);
    assert_eq!(c.memory(0x301), 2);
    assert_eq!(c.memory(0x302), 3);
    assert_eq!(c.memory(0x303), 0);
    assert_eq!(c.index(), 0x300);
    run(&mut c, 4);
    assert_eq!(c.register(0), 1);
    assert_eq!(c.register(1), 2);
    assert_eq!(c.register(2), 0);
    assert_eq!(c.index(), 0x300);
}

#[test]
fn wait_for_release_spins_until_release() {
    let mut c = load(&[0xF5, 0x0A, 0x60, 0x01]);
    for _ in 0..5 {
        assert_eq!(c.step(), Ok(false));
        assert_eq!(c.pc(), 0x200);
    }
    c.key_press(7);
    c.step().unwrap();
    assert_eq!(c.pc(), 0x200);
    c.key_release(7);
    c.step().unwrap();
    assert_eq!(c.pc(), 0x202);
    assert_eq!(c.register(5), 7);
}

#[test]
fn release_latch_lasts_one_step() {
    let mut c = load(&[0x60, 0x01, 0xF5, 0x0A]);
    c.key_release(3);
    c.step().unwrap();
    c.step().unwrap();
    assert_eq!(c.pc(), 0x202);
    assert_eq!(c.register(5), 0);
}

#[test]
fn delay_timer_counts_down_every_twelve_steps_at_700() {
    // V0 = 5; delay = V0; then jump to self at 0x204 forever.
    let mut c = load(&[0x60, 0x05, 0xF0, 0x15, 0x12, 0x04]);
    run(&mut c, 2);
    assert_eq!(c.delay_timer(), 5);
    // Steps 3..=11 leave it alone; the 12th counts it down.
    run(&mut c, 9);
    assert_eq!(c.delay_timer(), 5);
    run(&mut c, 1);
    assert_eq!(c.delay_timer(), 4);
    run(&mut c, 11);
    assert_eq!(c.delay_timer(), 4);
    run(&mut c, 1);
    assert_eq!(c.delay_timer(), 3);
}

#[test]
fn delay_timer_is_read_back() {
    let mut c = load(&[0x60, 0x09, 0xF0, 0x15, 0xF1, 0x07]);
    run(&mut c, 3);
    assert_eq!(c.register(1), 9);
}

#[test]
fn sound_timer_drives_sound() {
    let mut c = load(&[0x60, 0x01, 0xF0, 0x18, 0x12, 0x04]);
    run(&mut c, 2);
    assert!(c.is_sound_playing());
    assert_eq!(c.sound_timer(), 1);
    run(&mut c, 10);
    assert!(!c.is_sound_playing());
}

#[test]
fn end_to_end_add_then_fault() {
    let mut c = load(&[0x60, 0x0A, 0x61, 0x05, 0x80, 0x14, 0x00, 0x00]);
    run(&mut c, 3);
    assert_eq!(c.register(0), 15);
    assert_eq!(c.register(FLAG), 0);
    assert_eq!(c.step(), Err(Chip8Error::UnimplementedOpcode { instr: 0x0000, pc: 0x206 }));
    assert_eq!(c.pc(), 0x206);
}

#[test]
fn return_on_empty_stack_faults() {
    let mut c = load(&[0x00, 0xEE]);
    assert_eq!(c.step(), Err(Chip8Error::StackUnderflow { instr: 0x00EE, pc: 0x200 }));
}

#[test]
fn unknown_alu_selector_faults() {
    let mut c = load(&[0x80, 0x18]);
    assert_eq!(c.step(), Err(Chip8Error::UnimplementedOpcode { instr: 0x8018, pc: 0x200 }));
}

#[test]
fn store_digits_past_memory_faults() {
    let mut c = load(&[0xAF, 0xFE, 0xF0, 0x33]);
    c.step().unwrap();
    assert_eq!(c.step(), Err(Chip8Error::MemoryOutOfRange { instr: 0xF033, pc: 0x202 }));
    assert_eq!(c.memory(0xFFE), 0);
}

#[test]
fn key_skip_with_bad_key_faults() {
    let mut c = load(&[0x60, 0x10, 0xE0, 0x9E]);
    c.step().unwrap();
    assert_eq!(c.step(), Err(Chip8Error::KeyOutOfRange { instr: 0xE09E, pc: 0x202 }));
}

#[test]
fn fetch_past_memory_faults() {
    let mut c = load(&[0x1F, 0xFF]);
    c.step().unwrap();
    assert_eq!(c.pc(), 0xFFF);
    assert_eq!(c.step(), Err(Chip8Error::PcOutOfRange { pc: 0xFFF }));
}

#[test]
fn key_skips_follow_key_state() {
    // V0 = 4; skip if key 4 down; V1 = 1; skip if key 4 up; V2 = 1.
    let mut c = load(&[0x60, 0x04, 0xE0, 0x9E, 0x61, 0x01, 0xE0, 0xA1, 0x62, 0x01]);
    c.key_press(Chip8Keys::Num4.index());
    run(&mut c, 2);
    assert_eq!(c.pc(), 0x206);
    run(&mut c, 2);
    assert_eq!(c.register(2), 1);
    assert_eq!(c.register(1), 0);
}

#[test]
fn compare_skips() {
    // V0 = 3; skip if V0 == 3; (skipped); skip if V0 != 3; V1 = 1; skip if V0 == V1 ...
    let mut c = load(&[0x60, 0x03, 0x30, 0x03, 0x61, 0x09, 0x40, 0x03, 0x61, 0x01, 0x50, 0x10, 0x62, 0x01, 0x90, 0x10, 0x63, 0x01]);
    run(&mut c, 7);
    assert_eq!(c.register(1), 1);
    assert_eq!(c.register(2), 1);
    assert_eq!(c.register(3), 0);
    assert_eq!(c.pc(), 0x212);
}

#[test]
fn add_to_index_wraps_and_flags() {
    let mut c = load(&[0xAF, 0xFF, 0x60, 0x02, 0xF0, 0x1E]);
    run(&mut c, 3);
    assert_eq!(c.index(), 1);
    assert_eq!(c.register(FLAG), 1);
}

#[test]
fn add_to_index_without_wrap() {
    let mut c = load(&[0xA1, 0x00, 0x60, 0x02, 0xF0, 0x1E]);
    run(&mut c, 3);
    assert_eq!(c.index(), 0x102);
    assert_eq!(c.register(FLAG), 0);
}

#[test]
fn font_address_of_digit() {
    let mut c = load(&[0x60, 0x0A, 0xF0, 0x29]);
    run(&mut c, 2);
    assert_eq!(c.index(), 0x50 + 50);
}

#[test]
fn jump_with_offset() {
    let mut c = load(&[0x60, 0x04, 0xB3, 0x00]);
    run(&mut c, 2);
    assert_eq!(c.pc(), 0x304);
}

#[test]
fn random_is_masked() {
    let mut c = load(&[0xC0, 0x0F, 0xC1, 0x00]);
    assert_eq!(c.step_with_random(0xAB), Ok(false));
    assert_eq!(c.register(0), 0x0B);
    c.step().unwrap();
    assert_eq!(c.register(1), 0);
}

#[test]
fn keys_map_to_their_digit() {
    assert_eq!(Chip8Keys::Num0.index(), 0);
    assert_eq!(Chip8Keys::Num9.index(), 9);
    assert_eq!(Chip8Keys::A.index(), 10);
    assert_eq!(Chip8Keys::F.index(), 15);
}
