use chip8::{AudioIntent, BeepingState, Chip8, Chip8Error, ChipConfig, CpuState, Display, Input};

fn fresh(program: &[u8]) -> Chip8 {
    Chip8::new(Display::build(640, 320), Input::new(), program)
}

#[test]
fn fetch_combines_big_endian_and_keeps_pc() {
    let chip = fresh(&[0x61, 0x1e]);
    assert_eq!(chip.pc(), 0x200);
    assert_eq!(chip.fetch(), Ok(0x611e));
    // fetch is pure: asking again gives the same word and PC has not moved
    assert_eq!(chip.fetch(), Ok(0x611e));
    assert_eq!(chip.pc(), 0x200);
}

#[test]
fn new_loads_font_and_program() {
    let chip = fresh(&[0xab, 0xcd]);
    assert_eq!(chip.mem(0), 0xf0); // digit 0 glyph starts the font
    assert_eq!(chip.mem(79), 0x80); // last byte of the F glyph
    assert_eq!(chip.mem(80), 0x00);
    assert_eq!(chip.mem(0x1ff), 0x00);
    assert_eq!(chip.mem(0x200), 0xab);
    assert_eq!(chip.mem(0x201), 0xcd);
    assert_eq!(chip.mem(0x202), 0x00);
    assert_eq!(chip.sp(), 0);
    assert_eq!(chip.i(), 0);
    assert_eq!(chip.dt(), 0);
    assert_eq!(chip.st(), 0);
    assert!(matches!(chip.state, CpuState::Running));
}

#[test]
fn load_immediate_and_pc_advance() {
    let mut chip = fresh(&[]);
    assert_eq!(chip.execute(0x61ab, 0), Ok(()));
    assert_eq!(chip.v(1), 0xab);
    assert_eq!(chip.pc(), 0x202);
}

#[test]
fn add_immediate_wraps_without_flag() {
    let mut chip = fresh(&[]);
    chip.set_v(1, 0xff);
    chip.set_v(0xf, 1); // a flag left by some earlier opcode
    assert_eq!(chip.execute(0x7101, 0), Ok(()));
    assert_eq!(chip.v(1), 0x00); // 0xFF + 1 wraps to 0
    assert_eq!(chip.v(0xf), 1); // and VF is untouched
}

#[test]
fn add_registers_sets_carry() {
    let mut chip = fresh(&[]);
    chip.set_v(1, 0xff);
    chip.set_v(2, 0x01);
    assert_eq!(chip.execute(0x8124, 0), Ok(()));
    assert_eq!(chip.v(1), 0x00);
    assert_eq!(chip.v(0xf), 1);

    chip.set_v(3, 0x10);
    chip.set_v(4, 0x0f);
    assert_eq!(chip.execute(0x8344, 0), Ok(()));
    assert_eq!(chip.v(3), 0x1f);
    assert_eq!(chip.v(0xf), 0);
}

#[test]
fn sub_registers_sets_not_borrow() {
    let mut chip = fresh(&[]);
    chip.set_v(1, 0x05);
    chip.set_v(2, 0x0a);
    assert_eq!(chip.execute(0x8125, 0), Ok(()));
    assert_eq!(chip.v(1), 0xfb); // 5 - 10 wraps
    assert_eq!(chip.v(0xf), 0); // borrow happened

    chip.set_v(3, 0x0a);
    chip.set_v(4, 0x05);
    assert_eq!(chip.execute(0x8345, 0), Ok(()));
    assert_eq!(chip.v(3), 0x05);
    assert_eq!(chip.v(0xf), 1); // no borrow
}

#[test]
fn subn_registers() {
    let mut chip = fresh(&[]);
    chip.set_v(1, 0x0a);
    chip.set_v(2, 0x05);
    assert_eq!(chip.execute(0x8127, 0), Ok(()));
    assert_eq!(chip.v(1), 0xfb); // V2 - V1 = 5 - 10 wraps
    assert_eq!(chip.v(0xf), 0);
}

#[test]
fn shift_right_reads_vy() {
    let mut chip = fresh(&[]);
    chip.set_v(1, 0x77); // would give a different answer if Vx were the source
    chip.set_v(2, 0x03);
    assert_eq!(chip.execute(0x8126, 0), Ok(()));
    assert_eq!(chip.v(1), 0x01); // 3 >> 1
    assert_eq!(chip.v(0xf), 1); // the bit shifted out
}

#[test]
fn shift_left_reads_vy() {
    let mut chip = fresh(&[]);
    chip.set_v(1, 0x77);
    chip.set_v(2, 0x81);
    assert_eq!(chip.execute(0x812e, 0), Ok(()));
    assert_eq!(chip.v(1), 0x02); // 0x81 << 1 mod 256
    assert_eq!(chip.v(0xf), 1); // the top bit of Vy
}

#[test]
fn bitwise_ops_reset_vf() {
    let mut chip = fresh(&[]);
    chip.set_v(0xf, 1);
    chip.set_v(1, 0b1100);
    chip.set_v(2, 0b1010);
    assert_eq!(chip.execute(0x8121, 0), Ok(()));
    assert_eq!(chip.v(1), 0b1110); // OR
    assert_eq!(chip.v(0xf), 0);

    chip.set_v(0xf, 1);
    chip.set_v(1, 0b1100);
    assert_eq!(chip.execute(0x8122, 0), Ok(()));
    assert_eq!(chip.v(1), 0b1000); // AND
    assert_eq!(chip.v(0xf), 0);

    chip.set_v(0xf, 1);
    chip.set_v(1, 0b1100);
    assert_eq!(chip.execute(0x8123, 0), Ok(()));
    assert_eq!(chip.v(1), 0b0110); // XOR
    assert_eq!(chip.v(0xf), 0);
}

#[test]
fn skips_adjust_pc() {
    let mut chip = fresh(&[]);
    chip.set_v(1, 0x42);
    assert_eq!(chip.execute(0x3142, 0), Ok(())); // equal immediate: skip
    assert_eq!(chip.pc(), 0x204);
    assert_eq!(chip.execute(0x3143, 0), Ok(())); // not equal: no skip
    assert_eq!(chip.pc(), 0x206);
    assert_eq!(chip.execute(0x4143, 0), Ok(())); // not-equal immediate: skip
    assert_eq!(chip.pc(), 0x20a);
    chip.set_v(2, 0x42);
    assert_eq!(chip.execute(0x5120, 0), Ok(())); // equal registers: skip
    assert_eq!(chip.pc(), 0x20e);
    assert_eq!(chip.execute(0x9120, 0), Ok(())); // not-equal registers: no skip
    assert_eq!(chip.pc(), 0x210);
}

#[test]
fn jump_and_jump_with_offset() {
    let mut chip = fresh(&[]);
    assert_eq!(chip.execute(0x1300, 0), Ok(()));
    assert_eq!(chip.pc(), 0x300);
    chip.set_v(0, 0x05);
    assert_eq!(chip.execute(0xb300, 0), Ok(()));
    assert_eq!(chip.pc(), 0x305);
}

#[test]
fn call_return_round_trip() {
    let mut chip = fresh(&[]);
    assert_eq!(chip.pc(), 0x200);
    assert_eq!(chip.sp(), 0);
    assert_eq!(chip.execute(0x2300, 0), Ok(()));
    assert_eq!(chip.pc(), 0x300);
    assert_eq!(chip.sp(), 1);
    assert_eq!(chip.execute(0x00ee, 0), Ok(()));
    assert_eq!(chip.pc(), 0x202); // right after the call instruction
    assert_eq!(chip.sp(), 0);
}

#[test]
fn return_on_empty_stack_is_underflow() {
    let mut chip = fresh(&[]);
    assert_eq!(chip.execute(0x00ee, 0), Err(Chip8Error::StackUnderflow));
    assert_eq!(chip.pc(), 0x200); // untouched
    assert_eq!(chip.sp(), 0);
}

#[test]
fn seventeenth_nested_call_is_overflow() {
    let mut chip = fresh(&[]);
    for _ in 0..16 {
        assert_eq!(chip.execute(0x2300, 0), Ok(()));
    }
    assert_eq!(chip.sp(), 16);
    assert_eq!(chip.execute(0x2300, 0), Err(Chip8Error::StackOverflow));
    assert_eq!(chip.sp(), 16);
}

#[test]
fn invalid_opcode_is_a_skip() {
    let mut chip = fresh(&[]);
    chip.set_v(1, 0x12);
    assert_eq!(chip.execute(0x8129, 0), Ok(())); // no such sub-op
    assert_eq!(chip.v(1), 0x12);
    assert_eq!(chip.pc(), 0x202); // PC moved past it, nothing else happened
    assert_eq!(chip.execute(0x5121, 0), Ok(())); // 5xy1 is not a defined skip
    assert_eq!(chip.pc(), 0x204);
}

#[test]
fn set_index_and_add_index() {
    let mut chip = fresh(&[]);
    assert_eq!(chip.execute(0xa100, 0), Ok(()));
    assert_eq!(chip.i(), 0x100);
    chip.set_v(1, 0x05);
    assert_eq!(chip.execute(0xf11e, 0), Ok(()));
    assert_eq!(chip.i(), 0x105);
}

#[test]
fn random_masks_with_kk() {
    let mut chip = fresh(&[]);
    chip.execute(0xc10f, 0xab).unwrap();
    assert_eq!(chip.v(1), 0x0b);
    // through the real random source, a zero mask pins the result
    chip.decode(0xc200).unwrap();
    assert_eq!(chip.v(2), 0x00);
}

#[test]
fn font_address_lookup() {
    let mut chip = fresh(&[]);
    chip.set_v(1, 0x0a);
    assert_eq!(chip.execute(0xf129, 0), Ok(()));
    assert_eq!(chip.i(), 50); // glyph A is the eleventh, 5 bytes each
    assert_eq!(chip.mem(50), 0xf0);
    assert_eq!(chip.mem(51), 0x90);
    assert_eq!(chip.mem(52), 0xf0);
    assert_eq!(chip.mem(53), 0x90);
    assert_eq!(chip.mem(54), 0x90);
}

#[test]
fn bcd_store() {
    let mut chip = fresh(&[]);
    chip.set_v(1, 254);
    assert_eq!(chip.execute(0xa300, 0), Ok(()));
    assert_eq!(chip.execute(0xf133, 0), Ok(()));
    assert_eq!(chip.mem(0x300), 2);
    assert_eq!(chip.mem(0x301), 5);
    assert_eq!(chip.mem(0x302), 4);
}

#[test]
fn bcd_store_near_top_of_memory_is_refused() {
    let mut chip = fresh(&[]);
    assert_eq!(chip.execute(0xaffe, 0), Ok(())); // I = 0xFFE, so I+2 = 0x1000
    assert_eq!(chip.execute(0xf133, 0), Err(Chip8Error::AddressOutOfRange));
}

#[test]
fn block_store_load_round_trip() {
    let mut chip = fresh(&[]);
    chip.set_v(0, 0x11);
    chip.set_v(1, 0x22);
    chip.set_v(2, 0x33);
    chip.set_v(3, 0x44);
    assert_eq!(chip.execute(0xa050, 0), Ok(()));
    assert_eq!(chip.execute(0xf355, 0), Ok(()));
    assert_eq!(chip.mem(0x50), 0x11);
    assert_eq!(chip.mem(0x51), 0x22);
    assert_eq!(chip.mem(0x52), 0x33);
    assert_eq!(chip.mem(0x53), 0x44);
    assert_eq!(chip.i(), 0x54); // auto-increment by x + 1

    // clobber the registers, reset I by hand, load back
    chip.set_v(0, 0);
    chip.set_v(1, 0);
    chip.set_v(2, 0);
    chip.set_v(3, 0);
    assert_eq!(chip.execute(0xa050, 0), Ok(()));
    assert_eq!(chip.execute(0xf365, 0), Ok(()));
    assert_eq!(chip.v(0), 0x11);
    assert_eq!(chip.v(1), 0x22);
    assert_eq!(chip.v(2), 0x33);
    assert_eq!(chip.v(3), 0x44);
    assert_eq!(chip.i(), 0x54);
}

#[test]
fn block_transfer_past_memory_end_is_refused() {
    let mut chip = fresh(&[]);
    assert_eq!(chip.execute(0xaffd, 0), Ok(())); // I = 0xFFD, I + 3 = 0x1000
    assert_eq!(chip.execute(0xf355, 0), Err(Chip8Error::AddressOutOfRange));
    assert_eq!(chip.execute(0xf365, 0), Err(Chip8Error::AddressOutOfRange));
    assert_eq!(chip.i(), 0xffd); // untouched by the refused transfers
}

#[test]
fn timers_load_and_read() {
    let mut chip = fresh(&[]);
    chip.set_v(1, 3);
    assert_eq!(chip.execute(0xf115, 0), Ok(()));
    assert_eq!(chip.dt(), 3);
    assert_eq!(chip.execute(0xf118, 0), Ok(()));
    assert_eq!(chip.st(), 3);
    assert_eq!(chip.execute(0xf207, 0), Ok(()));
    assert_eq!(chip.v(2), 3); // Vx = DT
}

#[test]
fn timers_decrement_at_most_one_and_floor_at_zero() {
    let mut chip = fresh(&[]);
    chip.set_v(1, 2);
    chip.execute(0xf115, 0).unwrap(); // DT = 2
    chip.execute(0xf118, 0).unwrap(); // ST = 2
    chip.update_timers();
    assert_eq!(chip.dt(), 1);
    assert_eq!(chip.st(), 1);
    chip.update_timers();
    assert_eq!(chip.dt(), 0);
    assert_eq!(chip.st(), 0);
    chip.update_timers();
    chip.update_timers();
    assert_eq!(chip.dt(), 0); // never below zero
    assert_eq!(chip.st(), 0);
}

#[test]
fn sound_timer_edges_drive_audio_intent() {
    let mut chip = fresh(&[]);
    assert!(matches!(chip.beeping_state, BeepingState::Stopped));
    assert_eq!(chip.update_timers(), AudioIntent::Silent);
    chip.set_v(1, 2);
    chip.execute(0xf118, 0).unwrap(); // ST = 2
    assert_eq!(chip.update_timers(), AudioIntent::StartTone); // 2 -> 1
    assert!(matches!(chip.beeping_state, BeepingState::Beeping));
    assert_eq!(chip.update_timers(), AudioIntent::Silent); // 1 -> 0
    assert_eq!(chip.update_timers(), AudioIntent::StopTone); // reached 0
    assert!(matches!(chip.beeping_state, BeepingState::Stopped));
    assert_eq!(chip.update_timers(), AudioIntent::Silent);
}

#[test]
fn key_skips() {
    let mut chip = fresh(&[]);
    chip.set_v(1, 5);
    chip.input.set_key(5, true);
    assert_eq!(chip.execute(0xe19e, 0), Ok(())); // key down: skip
    assert_eq!(chip.pc(), 0x204);
    assert_eq!(chip.execute(0xe1a1, 0), Ok(())); // key down: no skip
    assert_eq!(chip.pc(), 0x206);
    chip.input.set_key(5, false);
    assert_eq!(chip.execute(0xe19e, 0), Ok(()));
    assert_eq!(chip.pc(), 0x208);
    assert_eq!(chip.execute(0xe1a1, 0), Ok(()));
    assert_eq!(chip.pc(), 0x20c);
}

#[test]
fn key_skip_with_impossible_key_is_refused() {
    let mut chip = fresh(&[]);
    chip.set_v(1, 200);
    assert_eq!(chip.execute(0xe19e, 0), Err(Chip8Error::InvalidKey));
    assert_eq!(chip.pc(), 0x200);
}

#[test]
fn key_wait_flow() {
    // program: F30A (wait for a key into V3), then 6101
    let mut chip = fresh(&[0xf3, 0x0a, 0x61, 0x01]);
    assert_eq!(chip.cycle(), Ok(()));
    assert!(matches!(chip.state, CpuState::WaitingForKey { register: 3 }));
    assert_eq!(chip.pc(), 0x202);

    // no key is down: nothing executes, the machine stays parked
    assert_eq!(chip.cycle(), Ok(()));
    assert_eq!(chip.cycle(), Ok(()));
    assert!(matches!(chip.state, CpuState::WaitingForKey { register: 3 }));
    assert_eq!(chip.pc(), 0x202);
    assert_eq!(chip.v(1), 0);

    // key 5 goes down: it lands in V3 and we wait for its release
    chip.input.set_key(5, true);
    assert_eq!(chip.cycle(), Ok(()));
    assert!(matches!(chip.state, CpuState::WaitingForRelease { register: 3, key: 5 }));
    assert_eq!(chip.v(3), 5);
    assert_eq!(chip.pc(), 0x202); // still no instruction executed

    // held down: still parked
    assert_eq!(chip.cycle(), Ok(()));
    assert!(matches!(chip.state, CpuState::WaitingForRelease { register: 3, key: 5 }));
    assert_eq!(chip.pc(), 0x202);

    // released: back to running, and the next cycle executes 6101
    chip.input.set_key(5, false);
    assert_eq!(chip.cycle(), Ok(()));
    assert!(matches!(chip.state, CpuState::Running));
    assert_eq!(chip.pc(), 0x202);
    assert_eq!(chip.cycle(), Ok(()));
    assert_eq!(chip.v(1), 1);
    assert_eq!(chip.pc(), 0x204);
}

#[test]
fn pc_running_off_memory_is_refused() {
    let mut chip = fresh(&[]);
    assert_eq!(chip.execute(0x1fff, 0), Ok(())); // jump to 0xFFF
    assert_eq!(chip.cycle(), Err(Chip8Error::AddressOutOfRange));
    assert_eq!(chip.pc(), 0xfff);
}

#[test]
fn draw_opcode_sets_collision_flag_and_vram() {
    // draw the digit-0 glyph (at I = 0) at (0, 0), twice
    let mut chip = fresh(&[]);
    assert_eq!(chip.execute(0xa000, 0), Ok(()));
    assert_eq!(chip.execute(0xd125, 0), Ok(())); // V1 = V2 = 0
    assert_eq!(chip.v(0xf), 0);
    assert_eq!(chip.display.vram[0], 0xf0u64 << 56);
    assert_eq!(chip.display.vram[1], 0x90u64 << 56);
    assert_eq!(chip.execute(0xd125, 0), Ok(()));
    assert_eq!(chip.v(0xf), 1); // erased what was there
    for row in 0..32 {
        assert_eq!(chip.display.vram[row], 0);
    }
}

#[test]
fn draw_near_top_of_memory_is_refused() {
    let mut chip = fresh(&[]);
    assert_eq!(chip.execute(0xafff, 0), Ok(())); // I = 0xFFF
    assert_eq!(chip.execute(0xd122, 0), Err(Chip8Error::AddressOutOfRange));
}

#[test]
fn clear_opcode_zeroes_every_row() {
    let mut chip = fresh(&[]);
    chip.execute(0xa000, 0).unwrap();
    chip.execute(0xd125, 0).unwrap(); // put something on the screen
    assert_eq!(chip.execute(0x00e0, 0), Ok(()));
    for row in 0..32 {
        assert_eq!(chip.display.vram[row], 0);
    }
    assert_eq!(chip.pc(), 0x206);
}

#[test]
fn config_paces_cycles_per_frame() {
    let config = ChipConfig::new(700, 60, vec![0x12, 0x00]);
    assert_eq!(config.cycles_per_frame, 11);
    assert_eq!(config.target_frame_micros, 16_666);
    assert_eq!(config.instructions, vec![0x12, 0x00]);
}

#[test]
fn input_reports_lowest_pressed_key() {
    let mut input = Input::new();
    assert_eq!(input.get_any_pressed_key(), None);
    input.set_key(9, true);
    input.set_key(4, true);
    assert_eq!(input.get_any_pressed_key(), Some(4));
    assert!(input.is_key_pressed(9));
    assert!(!input.is_key_pressed(3));
    input.set_key(4, false);
    assert_eq!(input.get_any_pressed_key(), Some(9));
}
