//! Bus-level behaviour: the two tick cadences, the key-wait block and
//! the framebuffer handoff to the display collaborator.

use chip8::bus::Bus;
use chip8::keyboard::State;
use chip8::machine::Chip8Error;

#[test]
fn new_machine_starts_at_0x200_with_font() {
    let mut bus = Bus::new();
    assert_eq!(bus.cpu.pc, 0x200);
    assert_eq!(bus.cpu.sp, 0);
    assert_eq!(bus.state.delay, 0);
    assert_eq!(bus.state.sound, 0);
    assert!(!bus.state.lock_until_pressed);
    assert_eq!(bus.memory.read(0), 0xF0);
    assert_eq!(bus.memory.read(79), 0x80);
    assert_eq!(bus.memory.read(0x200), 0);
    assert!(!bus.was_screen_updated());
}

#[test]
fn load_rom_copies_bytes_to_0x200() {
    let mut bus = Bus::new();
    let rom: Vec<u8> = vec![0x60, 0x2A, 0x12, 0x00];
    bus.memory.load_rom(&rom);
    assert_eq!(bus.memory.read(0x200), 0x60);
    assert_eq!(bus.memory.read(0x201), 0x2A);
    assert_eq!(bus.memory.read(0x202), 0x12);
    assert_eq!(bus.memory.read(0x203), 0x00);
    assert_eq!(bus.memory.read(0x204), 0);
}

#[test]
fn timer_ticks_floor_at_zero() {
    let mut bus = Bus::new();
    bus.state.delay = 60;
    bus.state.sound = 2;
    for _ in 0..60 {
        bus.tick_frame_timer();
    }
    assert_eq!(bus.state.delay, 0);
    assert_eq!(bus.state.sound, 0);
    bus.tick_frame_timer();
    assert_eq!(bus.state.delay, 0);
    assert_eq!(bus.state.sound, 0);
}

#[test]
fn instruction_tick_executes_loaded_program() {
    let mut bus = Bus::new();
    let rom: Vec<u8> = vec![0x6A, 0x42];
    bus.memory.load_rom(&rom);
    bus.tick_frame_cpu().unwrap();
    assert_eq!(bus.cpu.v[0xA], 0x42);
    assert_eq!(bus.cpu.pc, 0x202);
}

#[test]
fn instruction_tick_surfaces_invalid_opcode() {
    let mut bus = Bus::new();
    let r = bus.tick_frame_cpu();
    assert_eq!(r, Err(Chip8Error::InvalidOpcode(0)));
    assert_eq!(bus.cpu.pc, 0x200);
}

#[test]
fn wait_key_blocks_then_resumes_on_press() {
    let mut bus = Bus::new();
    let rom: Vec<u8> = vec![0xF5, 0x0A, 0x60, 0x01];
    bus.memory.load_rom(&rom);
    bus.tick_frame_cpu().unwrap();
    assert!(bus.state.lock_until_pressed);
    assert_eq!(bus.cpu.pc, 0x202);
    for _ in 0..5 {
        bus.tick_frame_cpu().unwrap();
        assert_eq!(bus.cpu.pc, 0x202);
    }
    bus.keyboard.process_key(7, State::PRESSED);
    bus.tick_frame_cpu().unwrap();
    assert!(!bus.state.lock_until_pressed);
    assert_eq!(bus.cpu.v[5], 7);
    assert_eq!(bus.cpu.v[0], 1);
    assert_eq!(bus.cpu.pc, 0x204);
}

#[test]
fn wait_key_ignores_presses_of_earlier_frames() {
    let mut bus = Bus::new();
    let rom: Vec<u8> = vec![0xF5, 0x0A, 0x60, 0x01];
    bus.memory.load_rom(&rom);
    bus.keyboard.process_key(3, State::PRESSED);
    bus.keyboard.reset_key_press();
    bus.tick_frame_cpu().unwrap();
    assert!(bus.state.lock_until_pressed);
    bus.tick_frame_cpu().unwrap();
    assert!(bus.state.lock_until_pressed);
    assert_eq!(bus.cpu.pc, 0x202);
}

#[test]
fn screen_updated_flag_is_cleared_by_the_reader() {
    let mut bus = Bus::new();
    bus.memory.pending_screen_update(true);
    assert!(bus.was_screen_updated());
    assert!(!bus.was_screen_updated());
}

#[test]
fn get_vram_hands_out_the_framebuffer() {
    let mut bus = Bus::new();
    let rom: Vec<u8> = vec![0xA5, 0x00, 0xD0, 0x11];
    bus.memory.load_rom(&rom);
    bus.memory.write(0x500, 0x80);
    bus.tick_frame_cpu().unwrap();
    bus.tick_frame_cpu().unwrap();
    assert!(bus.was_screen_updated());
    let vram = bus.get_vram();
    assert!(vram[(0, 0)]);
    assert!(!vram[(1, 0)]);
}
