//! Per-instruction semantics, driven through `CPU::execute_next_instruction`.

use chip8::busstate::BusState;
use chip8::cpu::CPU;
use chip8::keyboard::{Keyboard, State};
use chip8::machine::Chip8Error;
use chip8::memory::MemoryMap;

fn setup() -> (CPU, MemoryMap, Keyboard, BusState) {
    (
        CPU::new(),
        MemoryMap::new(),
        Keyboard::new(),
        BusState { delay: 0, sound: 0, lock_until_pressed: false, write_to: 0 },
    )
}

/// Write `op` at the current program counter and execute one instruction.
fn exec_op(
    cpu: &mut CPU,
    mem: &mut MemoryMap,
    kb: &mut Keyboard,
    st: &mut BusState,
    op: u16,
) -> Result<(), Chip8Error> {
    let pc = cpu.pc;
    mem.write(pc, (op >> 8) as u8);
    mem.write(pc + 1, (op & 0xFF) as u8);
    cpu.execute_next_instruction(mem, kb, st)
}

#[test]
fn set_imm_loads_register_every_value() {
    for kk in 0..=255u16 {
        let (mut cpu, mut mem, mut kb, mut st) = setup();
        exec_op(&mut cpu, &mut mem, &mut kb, &mut st, 0x6A00 | kk).unwrap();
        assert_eq!(cpu.v[0xA], kk as u8);
        assert_eq!(cpu.pc, 0x202);
    }
}

#[test]
fn skip_eq_imm_taken_and_not_taken() {
    let (mut cpu, mut mem, mut kb, mut st) = setup();
    cpu.v[3] = 0x42;
    exec_op(&mut cpu, &mut mem, &mut kb, &mut st, 0x3342).unwrap();
    assert_eq!(cpu.pc, 0x204);
    exec_op(&mut cpu, &mut mem, &mut kb, &mut st, 0x3341).unwrap();
    assert_eq!(cpu.pc, 0x206);
}

#[test]
fn skip_ne_imm() {
    let (mut cpu, mut mem, mut kb, mut st) = setup();
    cpu.v[3] = 0x42;
    exec_op(&mut cpu, &mut mem, &mut kb, &mut st, 0x4341).unwrap();
    assert_eq!(cpu.pc, 0x204);
    exec_op(&mut cpu, &mut mem, &mut kb, &mut st, 0x4342).unwrap();
    assert_eq!(cpu.pc, 0x206);
}

#[test]
fn skip_eq_reg_and_ne_reg() {
    let (mut cpu, mut mem, mut kb, mut st) = setup();
    cpu.v[1] = 7;
    cpu.v[2] = 7;
    cpu.v[3] = 8;
    exec_op(&mut cpu, &mut mem, &mut kb, &mut st, 0x5120).unwrap();
    assert_eq!(cpu.pc, 0x204);
    exec_op(&mut cpu, &mut mem, &mut kb, &mut st, 0x5130).unwrap();
    assert_eq!(cpu.pc, 0x206);
    exec_op(&mut cpu, &mut mem, &mut kb, &mut st, 0x9130).unwrap();
    assert_eq!(cpu.pc, 0x20A);
    exec_op(&mut cpu, &mut mem, &mut kb, &mut st, 0x9120).unwrap();
    assert_eq!(cpu.pc, 0x20C);
}

#[test]
fn add_imm_wraps_without_flag() {
    let (mut cpu, mut mem, mut kb, mut st) = setup();
    cpu.v[0] = 0xFF;
    cpu.v[0xF] = 0x55;
    exec_op(&mut cpu, &mut mem, &mut kb, &mut st, 0x7002).unwrap();
    assert_eq!(cpu.v[0], 0x01);
    assert_eq!(cpu.v[0xF], 0x55);
}

#[test]
fn assign_or_and_xor() {
    let (mut cpu, mut mem, mut kb, mut st) = setup();
    cpu.v[0] = 0b1100;
    cpu.v[1] = 0b1010;
    exec_op(&mut cpu, &mut mem, &mut kb, &mut st, 0x8011).unwrap();
    assert_eq!(cpu.v[0], 0b1110);
    cpu.v[0] = 0b1100;
    exec_op(&mut cpu, &mut mem, &mut kb, &mut st, 0x8012).unwrap();
    assert_eq!(cpu.v[0], 0b1000);
    cpu.v[0] = 0b1100;
    exec_op(&mut cpu, &mut mem, &mut kb, &mut st, 0x8013).unwrap();
    assert_eq!(cpu.v[0], 0b0110);
    exec_op(&mut cpu, &mut mem, &mut kb, &mut st, 0x8010).unwrap();
    assert_eq!(cpu.v[0], 0b1010);
}

#[test]
fn add_reg_carry_cases() {
    let (mut cpu, mut mem, mut kb, mut st) = setup();
    cpu.v[0] = 0xFF;
    cpu.v[1] = 0x01;
    exec_op(&mut cpu, &mut mem, &mut kb, &mut st, 0x8014).unwrap();
    assert_eq!(cpu.v[0], 0x00);
    assert_eq!(cpu.v[0xF], 1);
    cpu.v[0] = 0x01;
    cpu.v[1] = 0x01;
    exec_op(&mut cpu, &mut mem, &mut kb, &mut st, 0x8014).unwrap();
    assert_eq!(cpu.v[0], 0x02);
    assert_eq!(cpu.v[0xF], 0);
}

#[test]
fn sub_reg_borrow_cases() {
    let (mut cpu, mut mem, mut kb, mut st) = setup();
    cpu.v[0] = 5;
    cpu.v[1] = 3;
    exec_op(&mut cpu, &mut mem, &mut kb, &mut st, 0x8015).unwrap();
    assert_eq!(cpu.v[0], 2);
    assert_eq!(cpu.v[0xF], 1);
    cpu.v[0] = 3;
    cpu.v[1] = 5;
    exec_op(&mut cpu, &mut mem, &mut kb, &mut st, 0x8015).unwrap();
    assert_eq!(cpu.v[0], 0xFE);
    assert_eq!(cpu.v[0xF], 0);
}

#[test]
fn sub_reg_equal_means_no_borrow() {
    let (mut cpu, mut mem, mut kb, mut st) = setup();
    cpu.v[0] = 5;
    cpu.v[1] = 5;
    exec_op(&mut cpu, &mut mem, &mut kb, &mut st, 0x8015).unwrap();
    assert_eq!(cpu.v[0], 0);
    assert_eq!(cpu.v[0xF], 1);
}

#[test]
fn sub_from_reversed_operands() {
    let (mut cpu, mut mem, mut kb, mut st) = setup();
    cpu.v[0] = 3;
    cpu.v[1] = 5;
    exec_op(&mut cpu, &mut mem, &mut kb, &mut st, 0x8017).unwrap();
    assert_eq!(cpu.v[0], 2);
    assert_eq!(cpu.v[0xF], 1);
    cpu.v[0] = 5;
    cpu.v[1] = 3;
    exec_op(&mut cpu, &mut mem, &mut kb, &mut st, 0x8017).unwrap();
    assert_eq!(cpu.v[0], 0xFE);
    assert_eq!(cpu.v[0xF], 0);
}

#[test]
fn shift_right_reports_low_bit() {
    let (mut cpu, mut mem, mut kb, mut st) = setup();
    cpu.v[2] = 0b0101;
    exec_op(&mut cpu, &mut mem, &mut kb, &mut st, 0x8206).unwrap();
    assert_eq!(cpu.v[2], 0b0010);
    assert_eq!(cpu.v[0xF], 1);
    exec_op(&mut cpu, &mut mem, &mut kb, &mut st, 0x8206).unwrap();
    assert_eq!(cpu.v[2], 0b0001);
    assert_eq!(cpu.v[0xF], 0);
}

#[test]
fn shift_left_reports_high_bit() {
    let (mut cpu, mut mem, mut kb, mut st) = setup();
    cpu.v[2] = 0b1100_0000;
    exec_op(&mut cpu, &mut mem, &mut kb, &mut st, 0x820E).unwrap();
    assert_eq!(cpu.v[2], 0b1000_0000);
    assert_eq!(cpu.v[0xF], 1);
    cpu.v[2] = 0b0100_0000;
    exec_op(&mut cpu, &mut mem, &mut kb, &mut st, 0x820E).unwrap();
    assert_eq!(cpu.v[2], 0b1000_0000);
    assert_eq!(cpu.v[0xF], 0);
}

#[test]
fn jump_sets_pc_directly() {
    let (mut cpu, mut mem, mut kb, mut st) = setup();
    exec_op(&mut cpu, &mut mem, &mut kb, &mut st, 0x1ABC).unwrap();
    assert_eq!(cpu.pc, 0xABC);
}

#[test]
fn jump_v0_adds_offset() {
    let (mut cpu, mut mem, mut kb, mut st) = setup();
    cpu.v[0] = 5;
    exec_op(&mut cpu, &mut mem, &mut kb, &mut st, 0xB300).unwrap();
    assert_eq!(cpu.pc, 0x305);
}

#[test]
fn call_and_return_round_trip() {
    let (mut cpu, mut mem, mut kb, mut st) = setup();
    exec_op(&mut cpu, &mut mem, &mut kb, &mut st, 0x2300).unwrap();
    assert_eq!(cpu.pc, 0x300);
    assert_eq!(cpu.sp, 1);
    exec_op(&mut cpu, &mut mem, &mut kb, &mut st, 0x00EE).unwrap();
    assert_eq!(cpu.pc, 0x202);
    assert_eq!(cpu.sp, 0);
}

#[test]
fn return_on_empty_stack_underflows() {
    let (mut cpu, mut mem, mut kb, mut st) = setup();
    let r = exec_op(&mut cpu, &mut mem, &mut kb, &mut st, 0x00EE);
    assert_eq!(r, Err(Chip8Error::StackUnderflow));
    assert_eq!(cpu.pc, 0x200);
}

#[test]
fn call_on_full_stack_overflows() {
    let (mut cpu, mut mem, mut kb, mut st) = setup();
    cpu.sp = 16;
    let r = exec_op(&mut cpu, &mut mem, &mut kb, &mut st, 0x2300);
    assert_eq!(r, Err(Chip8Error::StackOverflow));
    assert_eq!(cpu.pc, 0x200);
    assert_eq!(cpu.sp, 16);
}

#[test]
fn invalid_opcodes_are_reported() {
    for op in [0x5121u16, 0x9001, 0x8008, 0x0000, 0xE000, 0xF0FF] {
        let (mut cpu, mut mem, mut kb, mut st) = setup();
        let r = exec_op(&mut cpu, &mut mem, &mut kb, &mut st, op);
        assert_eq!(r, Err(Chip8Error::InvalidOpcode(op)));
        assert_eq!(cpu.pc, 0x200);
    }
}

#[test]
fn set_index_and_add_index_flag() {
    let (mut cpu, mut mem, mut kb, mut st) = setup();
    exec_op(&mut cpu, &mut mem, &mut kb, &mut st, 0xAFFF).unwrap();
    assert_eq!(cpu.i, 0xFFF);
    cpu.v[4] = 1;
    exec_op(&mut cpu, &mut mem, &mut kb, &mut st, 0xF41E).unwrap();
    assert_eq!(cpu.i, 0x1000);
    assert_eq!(cpu.v[0xF], 1);
    cpu.i = 0x100;
    cpu.v[4] = 5;
    exec_op(&mut cpu, &mut mem, &mut kb, &mut st, 0xF41E).unwrap();
    assert_eq!(cpu.i, 0x105);
    assert_eq!(cpu.v[0xF], 0);
}

#[test]
fn font_char_points_at_glyph() {
    let (mut cpu, mut mem, mut kb, mut st) = setup();
    cpu.v[6] = 0xA;
    exec_op(&mut cpu, &mut mem, &mut kb, &mut st, 0xF629).unwrap();
    assert_eq!(cpu.i, 50);
    assert_eq!(mem.read(50), 0xF0);
}

#[test]
fn store_bcd_of_156() {
    let (mut cpu, mut mem, mut kb, mut st) = setup();
    cpu.v[3] = 156;
    cpu.i = 0x300;
    exec_op(&mut cpu, &mut mem, &mut kb, &mut st, 0xF333).unwrap();
    assert_eq!(mem.read(0x300), 1);
    assert_eq!(mem.read(0x301), 5);
    assert_eq!(mem.read(0x302), 6);
}

#[test]
fn store_regs_is_inclusive_of_x() {
    let (mut cpu, mut mem, mut kb, mut st) = setup();
    cpu.v[0] = 10;
    cpu.v[1] = 11;
    cpu.v[2] = 12;
    cpu.v[3] = 13;
    cpu.v[4] = 99;
    cpu.i = 0x400;
    exec_op(&mut cpu, &mut mem, &mut kb, &mut st, 0xF355).unwrap();
    assert_eq!(mem.read(0x400), 10);
    assert_eq!(mem.read(0x401), 11);
    assert_eq!(mem.read(0x402), 12);
    assert_eq!(mem.read(0x403), 13);
    assert_eq!(mem.read(0x404), 0);
    assert_eq!(cpu.i, 0x400);
}

#[test]
fn load_regs_is_inclusive_of_x() {
    let (mut cpu, mut mem, mut kb, mut st) = setup();
    mem.write(0x400, 21);
    mem.write(0x401, 22);
    mem.write(0x402, 23);
    cpu.v[3] = 77;
    cpu.i = 0x400;
    exec_op(&mut cpu, &mut mem, &mut kb, &mut st, 0xF265).unwrap();
    assert_eq!(cpu.v[0], 21);
    assert_eq!(cpu.v[1], 22);
    assert_eq!(cpu.v[2], 23);
    assert_eq!(cpu.v[3], 77);
}

#[test]
fn delay_and_sound_register_transfers() {
    let (mut cpu, mut mem, mut kb, mut st) = setup();
    cpu.v[1] = 42;
    exec_op(&mut cpu, &mut mem, &mut kb, &mut st, 0xF115).unwrap();
    assert_eq!(st.delay, 42);
    cpu.v[2] = 9;
    exec_op(&mut cpu, &mut mem, &mut kb, &mut st, 0xF218).unwrap();
    assert_eq!(st.sound, 9);
    exec_op(&mut cpu, &mut mem, &mut kb, &mut st, 0xF507).unwrap();
    assert_eq!(cpu.v[5], 42);
}

#[test]
fn random_is_masked_by_kk() {
    let (mut cpu, mut mem, mut kb, mut st) = setup();
    cpu.v[0] = 0xAA;
    exec_op(&mut cpu, &mut mem, &mut kb, &mut st, 0xC000).unwrap();
    assert_eq!(cpu.v[0], 0);
    for _ in 0..16 {
        let (mut cpu, mut mem, mut kb, mut st) = setup();
        exec_op(&mut cpu, &mut mem, &mut kb, &mut st, 0xC10F).unwrap();
        assert!(cpu.v[1] <= 0x0F);
    }
}

#[test]
fn skip_if_key_pressed_and_not_pressed() {
    let (mut cpu, mut mem, mut kb, mut st) = setup();
    cpu.v[4] = 7;
    kb.process_key(7, State::PRESSED);
    exec_op(&mut cpu, &mut mem, &mut kb, &mut st, 0xE49E).unwrap();
    assert_eq!(cpu.pc, 0x204);
    exec_op(&mut cpu, &mut mem, &mut kb, &mut st, 0xE4A1).unwrap();
    assert_eq!(cpu.pc, 0x206);
    kb.process_key(7, State::RELEASED);
    exec_op(&mut cpu, &mut mem, &mut kb, &mut st, 0xE49E).unwrap();
    assert_eq!(cpu.pc, 0x208);
    exec_op(&mut cpu, &mut mem, &mut kb, &mut st, 0xE4A1).unwrap();
    assert_eq!(cpu.pc, 0x20C);
}

#[test]
fn held_key_does_not_count_as_pressed() {
    let (mut cpu, mut mem, mut kb, mut st) = setup();
    cpu.v[4] = 7;
    kb.process_key(7, State::PRESSED);
    kb.process_key(7, State::PRESSED);
    exec_op(&mut cpu, &mut mem, &mut kb, &mut st, 0xE49E).unwrap();
    assert_eq!(cpu.pc, 0x202);
}

#[test]
fn draw_xor_and_collision() {
    let (mut cpu, mut mem, mut kb, mut st) = setup();
    cpu.i = 0x500;
    mem.write(0x500, 0xFF);
    exec_op(&mut cpu, &mut mem, &mut kb, &mut st, 0xD011).unwrap();
    for x in 0..8 {
        assert!(mem.get_vram(x, 0));
    }
    assert!(!mem.get_vram(8, 0));
    assert_eq!(cpu.v[0xF], 0);
    assert!(mem.was_screen_updated());
    exec_op(&mut cpu, &mut mem, &mut kb, &mut st, 0xD011).unwrap();
    for x in 0..8 {
        assert!(!mem.get_vram(x, 0));
    }
    assert_eq!(cpu.v[0xF], 1);
}

#[test]
fn draw_bits_are_most_significant_first() {
    let (mut cpu, mut mem, mut kb, mut st) = setup();
    cpu.i = 0x500;
    mem.write(0x500, 0xA0);
    exec_op(&mut cpu, &mut mem, &mut kb, &mut st, 0xD011).unwrap();
    assert!(mem.get_vram(0, 0));
    assert!(!mem.get_vram(1, 0));
    assert!(mem.get_vram(2, 0));
    assert!(!mem.get_vram(3, 0));
}

#[test]
fn draw_position_uses_vx_vy_modulo_screen() {
    let (mut cpu, mut mem, mut kb, mut st) = setup();
    cpu.i = 0x500;
    mem.write(0x500, 0x80);
    cpu.v[2] = 66;
    cpu.v[3] = 33;
    exec_op(&mut cpu, &mut mem, &mut kb, &mut st, 0xD231).unwrap();
    assert!(mem.get_vram(2, 1));
}

#[test]
fn draw_does_not_wrap_horizontally() {
    let (mut cpu, mut mem, mut kb, mut st) = setup();
    cpu.i = 0x500;
    mem.write(0x500, 0xFF);
    cpu.v[0] = 62;
    cpu.v[1] = 0;
    exec_op(&mut cpu, &mut mem, &mut kb, &mut st, 0xD011).unwrap();
    assert!(mem.get_vram(62, 0));
    assert!(mem.get_vram(63, 0));
    assert!(!mem.get_vram(0, 0));
    assert!(!mem.get_vram(1, 0));
}

#[test]
fn draw_does_not_wrap_vertically() {
    let (mut cpu, mut mem, mut kb, mut st) = setup();
    cpu.i = 0x500;
    mem.write(0x500, 0xFF);
    mem.write(0x501, 0xFF);
    cpu.v[0] = 0;
    cpu.v[1] = 31;
    exec_op(&mut cpu, &mut mem, &mut kb, &mut st, 0xD012).unwrap();
    assert!(mem.get_vram(0, 31));
    assert!(!mem.get_vram(0, 0));
}

#[test]
fn clear_screen_blanks_and_marks_dirty() {
    let (mut cpu, mut mem, mut kb, mut st) = setup();
    mem.set_vram(5, 5, true);
    assert!(!mem.was_screen_updated());
    exec_op(&mut cpu, &mut mem, &mut kb, &mut st, 0x00E0).unwrap();
    assert!(!mem.get_vram(5, 5));
    assert!(mem.was_screen_updated());
    assert_eq!(cpu.pc, 0x202);
}

#[test]
fn wait_key_sets_latch_and_target() {
    let (mut cpu, mut mem, mut kb, mut st) = setup();
    exec_op(&mut cpu, &mut mem, &mut kb, &mut st, 0xF50A).unwrap();
    assert!(st.lock_until_pressed);
    assert_eq!(st.write_to, 5);
    assert_eq!(cpu.pc, 0x202);
}

#[test]
fn nibble_extraction() {
    assert_eq!(CPU::get_val_from_opcode(0xABCD, 0), 0xD);
    assert_eq!(CPU::get_val_from_opcode(0xABCD, 1), 0xC);
    assert_eq!(CPU::get_val_from_opcode(0xABCD, 2), 0xB);
    assert_eq!(CPU::get_val_from_opcode(0xABCD, 3), 0xA);
}
