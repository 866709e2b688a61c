use chip8::cpu::CPU;
use chip8::error::Error;

#[test]
fn load_immediate_reads_back() {
    // For every register: 6xkk leaves exactly kk in V[x].
    for x in 0..16u16 {
        let mut cpu = CPU::new();
        assert_eq!(cpu.run_instruction(0x6000 | (x << 8) | 0x42), Ok(()));
        assert_eq!(cpu.get_register(x as u8), 0x42);
    }
}

#[test]
fn add_immediate_wraps_without_flag() {
    let mut cpu = CPU::new();
    cpu.run_instruction(0x61FE).unwrap(); // V1 = 0xFE
    cpu.run_instruction(0x6F07).unwrap(); // VF = 7: 7xkk must not touch it
    cpu.run_instruction(0x7104).unwrap(); // V1 += 4, wrapping
    assert_eq!(cpu.get_register(1), 0x02);
    assert_eq!(cpu.get_register(0xF), 7);
}

#[test]
fn add_registers_sets_carry_on_wrap() {
    let mut cpu = CPU::new();
    cpu.run_instruction(0x61FF).unwrap(); // V1 = 0xFF
    cpu.run_instruction(0x6201).unwrap(); // V2 = 0x01
    cpu.run_instruction(0x8124).unwrap();
    assert_eq!(cpu.get_register(1), 0x00);
    assert_eq!(cpu.get_register(0xF), 1);
}

#[test]
fn add_registers_clears_carry_without_wrap() {
    let mut cpu = CPU::new();
    cpu.run_instruction(0x610A).unwrap();
    cpu.run_instruction(0x6214).unwrap();
    cpu.run_instruction(0x6F01).unwrap(); // stale carry must clear
    cpu.run_instruction(0x8124).unwrap();
    assert_eq!(cpu.get_register(1), 30);
    assert_eq!(cpu.get_register(0xF), 0);
}

#[test]
fn sub_borrow_leaves_flag_clear() {
    let mut cpu = CPU::new();
    cpu.run_instruction(0x6101).unwrap(); // V1 = 0x01
    cpu.run_instruction(0x6202).unwrap(); // V2 = 0x02
    cpu.run_instruction(0x8125).unwrap();
    assert_eq!(cpu.get_register(1), 0xFF);
    assert_eq!(cpu.get_register(0xF), 0);
}

#[test]
fn sub_without_borrow_sets_flag() {
    let mut cpu = CPU::new();
    cpu.run_instruction(0x6105).unwrap();
    cpu.run_instruction(0x6203).unwrap();
    cpu.run_instruction(0x8125).unwrap();
    assert_eq!(cpu.get_register(1), 2);
    assert_eq!(cpu.get_register(0xF), 1);
}

#[test]
fn subn_subtracts_the_other_way() {
    let mut cpu = CPU::new();
    cpu.run_instruction(0x6103).unwrap();
    cpu.run_instruction(0x620A).unwrap();
    cpu.run_instruction(0x8127).unwrap(); // V1 = V2 - V1
    assert_eq!(cpu.get_register(1), 7);
    assert_eq!(cpu.get_register(0xF), 1);
}

#[test]
fn bitwise_ops() {
    let mut cpu = CPU::new();
    cpu.run_instruction(0x610C).unwrap();
    cpu.run_instruction(0x620A).unwrap();
    cpu.run_instruction(0x8120).unwrap(); // LD V1, V2
    assert_eq!(cpu.get_register(1), 0x0A);
    cpu.run_instruction(0x610C).unwrap();
    cpu.run_instruction(0x8121).unwrap(); // OR
    assert_eq!(cpu.get_register(1), 0x0E);
    cpu.run_instruction(0x610C).unwrap();
    cpu.run_instruction(0x8122).unwrap(); // AND
    assert_eq!(cpu.get_register(1), 0x08);
    cpu.run_instruction(0x610C).unwrap();
    cpu.run_instruction(0x8123).unwrap(); // XOR
    assert_eq!(cpu.get_register(1), 0x06);
}

#[test]
fn shifts_capture_the_outgoing_bit() {
    let mut cpu = CPU::new();
    cpu.run_instruction(0x6105).unwrap(); // 0b0000_0101
    cpu.run_instruction(0x8106).unwrap(); // SHR
    assert_eq!(cpu.get_register(1), 2);
    assert_eq!(cpu.get_register(0xF), 1);
    cpu.run_instruction(0x6181).unwrap(); // 0b1000_0001
    cpu.run_instruction(0x810E).unwrap(); // SHL
    assert_eq!(cpu.get_register(1), 0x02);
    assert_eq!(cpu.get_register(0xF), 1);
}

#[test]
fn skip_instructions_adjust_pc() {
    let mut cpu = CPU::new();
    cpu.run_instruction(0x6107).unwrap(); // pc -> 0x202
    assert_eq!(cpu.get_pc(), 0x202);
    cpu.run_instruction(0x3107).unwrap(); // equal: skip
    assert_eq!(cpu.get_pc(), 0x206);
    cpu.run_instruction(0x3108).unwrap(); // not equal: no skip
    assert_eq!(cpu.get_pc(), 0x208);
    cpu.run_instruction(0x4108).unwrap(); // not equal: skip
    assert_eq!(cpu.get_pc(), 0x20C);
    cpu.run_instruction(0x6207).unwrap(); // V2 = V1
    cpu.run_instruction(0x5120).unwrap(); // equal: skip
    assert_eq!(cpu.get_pc(), 0x212);
    cpu.run_instruction(0x9120).unwrap(); // equal: no skip
    assert_eq!(cpu.get_pc(), 0x214);
}

#[test]
fn jumps_and_calls() {
    let mut cpu = CPU::new();
    cpu.run_instruction(0x1ABC).unwrap();
    assert_eq!(cpu.get_pc(), 0xABC);
    cpu.run_instruction(0x2DEF).unwrap(); // call from 0xABC
    assert_eq!(cpu.get_pc(), 0xDEF);
    assert_eq!(cpu.get_sp(), 1);
    assert_eq!(cpu.get_stack()[0], 0xABE);
    cpu.run_instruction(0x00EE).unwrap(); // return
    assert_eq!(cpu.get_pc(), 0xABE);
    assert_eq!(cpu.get_sp(), 0);
    cpu.run_instruction(0x0123).unwrap(); // legacy SYS: a jump
    assert_eq!(cpu.get_pc(), 0x123);
}

#[test]
fn jump_with_offset() {
    let mut cpu = CPU::new();
    cpu.run_instruction(0x6005).unwrap(); // V0 = 5
    cpu.run_instruction(0xB100).unwrap();
    assert_eq!(cpu.get_pc(), 0x105);
}

#[test]
fn return_on_empty_stack_underflows() {
    let mut cpu = CPU::new();
    assert_eq!(
        cpu.run_instruction(0x00EE),
        Err(Error::StackUnderflow { pc: 0x200, instruction: 0x00EE })
    );
    // The machine is untouched by the failure.
    assert_eq!(cpu.get_pc(), 0x200);
    assert_eq!(cpu.get_sp(), 0);
}

#[test]
fn seventeenth_nested_call_overflows() {
    let mut cpu = CPU::new();
    for _ in 0..16 {
        assert_eq!(cpu.run_instruction(0x2300), Ok(()));
    }
    assert_eq!(cpu.get_sp(), 16);
    assert_eq!(
        cpu.run_instruction(0x2300),
        Err(Error::StackOverflow { pc: 0x300, instruction: 0x2300 })
    );
}

#[test]
fn load_address_register() {
    let mut cpu = CPU::new();
    cpu.run_instruction(0xA123).unwrap();
    assert_eq!(cpu.get_i(), 0x123);
}

#[test]
fn add_to_address_register() {
    let mut cpu = CPU::new();
    cpu.run_instruction(0xAFFF).unwrap();
    cpu.run_instruction(0x6110).unwrap();
    cpu.run_instruction(0xF11E).unwrap();
    assert_eq!(cpu.get_i(), 0x100F);
}

#[test]
fn random_byte_is_masked() {
    let mut cpu = CPU::new();
    cpu.run_instruction(0xC1F0).unwrap();
    assert_eq!(cpu.get_register(1) & 0x0F, 0);
    // A zero mask forces zero whatever the random byte was.
    cpu.run_instruction(0x62FF).unwrap();
    cpu.run_instruction(0xC200).unwrap();
    assert_eq!(cpu.get_register(2), 0);
}

#[test]
fn glyph_lookup_points_into_font() {
    let mut cpu = CPU::new();
    cpu.run_instruction(0x600A).unwrap(); // digit A
    cpu.run_instruction(0xF029).unwrap();
    assert_eq!(cpu.get_i(), 50);
}

#[test]
fn glyph_lookup_rejects_non_digit() {
    let mut cpu = CPU::new();
    cpu.run_instruction(0x6010).unwrap(); // 16 is not a digit
    assert_eq!(
        cpu.run_instruction(0xF029),
        Err(Error::InvalidDigit { value: 16, pc: 0x202, instruction: 0xF029 })
    );
}

#[test]
fn bcd_splits_decimal_digits() {
    let mut cpu = CPU::new();
    cpu.run_instruction(0x609C).unwrap(); // V0 = 156
    cpu.run_instruction(0xA300).unwrap();
    cpu.run_instruction(0xF033).unwrap();
    assert_eq!(cpu.get_memory().get(0x300), 1);
    assert_eq!(cpu.get_memory().get(0x301), 5);
    assert_eq!(cpu.get_memory().get(0x302), 6);
    assert_eq!(cpu.get_i(), 0x300); // I itself does not move
}

#[test]
fn bcd_near_end_of_memory_fails() {
    let mut cpu = CPU::new();
    cpu.run_instruction(0xAFFE).unwrap();
    assert_eq!(
        cpu.run_instruction(0xF033),
        Err(Error::OutOfRangeAddress { addr: 0xFFE, pc: 0x202, instruction: 0xF033 })
    );
}

#[test]
fn store_then_load_round_trips_registers() {
    let mut cpu = CPU::new();
    cpu.run_instruction(0x6001).unwrap();
    cpu.run_instruction(0x6102).unwrap();
    cpu.run_instruction(0x6203).unwrap();
    cpu.run_instruction(0xA300).unwrap();
    cpu.run_instruction(0xF255).unwrap(); // store V0..V2 at 0x300
    assert_eq!(cpu.get_i(), 0x303); // I advanced by x + 1
    assert_eq!(cpu.get_memory().get(0x300), 1);
    assert_eq!(cpu.get_memory().get(0x301), 2);
    assert_eq!(cpu.get_memory().get(0x302), 3);
    // Scramble the registers, point I back, and load.
    cpu.run_instruction(0x60AA).unwrap();
    cpu.run_instruction(0x61BB).unwrap();
    cpu.run_instruction(0x62CC).unwrap();
    cpu.run_instruction(0xA300).unwrap();
    cpu.run_instruction(0xF265).unwrap();
    assert_eq!(cpu.get_register(0), 1);
    assert_eq!(cpu.get_register(1), 2);
    assert_eq!(cpu.get_register(2), 3);
    assert_eq!(cpu.get_i(), 0x303); // I advanced the same way on the load
}

#[test]
fn register_store_past_end_of_memory_fails() {
    let mut cpu = CPU::new();
    cpu.run_instruction(0xAFFF).unwrap();
    assert_eq!(
        cpu.run_instruction(0xF155),
        Err(Error::OutOfRangeAddress { addr: 0xFFF, pc: 0x202, instruction: 0xF155 })
    );
}

#[test]
fn delay_timer_ignores_instruction_cadence() {
    let mut cpu = CPU::new();
    cpu.run_instruction(0x610A).unwrap(); // V1 = 10
    cpu.run_instruction(0xF115).unwrap(); // DT = 10
    // Run far more instructions than one timer period could cover.
    for _ in 0..100 {
        cpu.run_instruction(0x6307).unwrap();
    }
    assert_eq!(cpu.get_delay_timer(), 10);
    assert!(!cpu.tick_timers());
    assert_eq!(cpu.get_delay_timer(), 9);
}

#[test]
fn delay_timer_reads_back() {
    let mut cpu = CPU::new();
    cpu.run_instruction(0x6107).unwrap();
    cpu.run_instruction(0xF115).unwrap(); // DT = 7
    cpu.run_instruction(0xF207).unwrap(); // V2 = DT
    assert_eq!(cpu.get_register(2), 7);
}

#[test]
fn sound_timer_drives_audio_signal() {
    let mut cpu = CPU::new();
    cpu.run_instruction(0x6102).unwrap();
    cpu.run_instruction(0xF118).unwrap(); // ST = 2
    assert_eq!(cpu.get_sound_timer(), 2);
    assert!(cpu.tick_timers()); // running: tone on
    assert!(cpu.tick_timers()); // still nonzero before this tick
    assert!(!cpu.tick_timers()); // reached zero: tone off
    assert_eq!(cpu.get_sound_timer(), 0);
    assert_eq!(cpu.get_delay_timer(), 0); // both floor at zero
}

#[test]
fn key_wait_stores_key_and_resumes_next_tick() {
    let mut cpu = CPU::new();
    cpu.load_program(&[0xF5, 0x0A, 0x61, 0x07]).unwrap();
    assert_eq!(cpu.step(), Ok(())); // executes Fx0A
    assert!(cpu.is_waiting_for_key());
    assert_eq!(cpu.get_pc(), 0x202);
    assert_eq!(cpu.step(), Ok(())); // no key yet: nothing moves
    assert!(cpu.is_waiting_for_key());
    assert_eq!(cpu.get_pc(), 0x202);
    cpu.set_key(7, true);
    assert_eq!(cpu.step(), Ok(())); // the poll resolves the wait...
    assert_eq!(cpu.get_register(5), 7);
    assert!(!cpu.is_waiting_for_key());
    assert_eq!(cpu.get_pc(), 0x202); // ...but runs no instruction this tick
    assert_eq!(cpu.step(), Ok(())); // the following tick resumes
    assert_eq!(cpu.get_register(1), 7);
    assert_eq!(cpu.get_pc(), 0x204);
}

#[test]
fn key_wait_takes_lowest_pressed_key() {
    let mut cpu = CPU::new();
    cpu.run_instruction(0xF20A).unwrap();
    cpu.set_key(9, true);
    cpu.set_key(3, true);
    cpu.step().unwrap();
    assert_eq!(cpu.get_register(2), 3);
}

#[test]
fn key_skips_follow_pressed_state() {
    let mut cpu = CPU::new();
    cpu.run_instruction(0x6104).unwrap(); // V1 = key 4, pc -> 0x202
    cpu.set_key(4, true);
    cpu.run_instruction(0xE19E).unwrap(); // pressed: skip
    assert_eq!(cpu.get_pc(), 0x206);
    cpu.run_instruction(0xE1A1).unwrap(); // pressed: no skip
    assert_eq!(cpu.get_pc(), 0x208);
    cpu.set_key(4, false);
    cpu.run_instruction(0xE19E).unwrap(); // released: no skip
    assert_eq!(cpu.get_pc(), 0x20A);
    cpu.run_instruction(0xE1A1).unwrap(); // released: skip
    assert_eq!(cpu.get_pc(), 0x20E);
}

#[test]
fn key_test_with_non_digit_key_number_fails() {
    let mut cpu = CPU::new();
    cpu.run_instruction(0x61FF).unwrap();
    assert_eq!(
        cpu.run_instruction(0xE19E),
        Err(Error::InvalidDigit { value: 0xFF, pc: 0x202, instruction: 0xE19E })
    );
}

#[test]
fn unrecognized_opcodes_are_no_ops() {
    let mut cpu = CPU::new();
    cpu.run_instruction(0x6105).unwrap();
    let pc = cpu.get_pc();
    assert_eq!(cpu.run_instruction(0x5121), Ok(())); // 5xy1: unclaimed
    assert_eq!(cpu.run_instruction(0x8128), Ok(())); // 8xy8: unclaimed
    assert_eq!(cpu.run_instruction(0xE155), Ok(())); // Ex55: unclaimed
    assert_eq!(cpu.run_instruction(0xF1FF), Ok(())); // FxFF: unclaimed
    assert_eq!(cpu.get_pc(), pc + 8);
    assert_eq!(cpu.get_register(1), 5); // registers untouched
}

#[test]
fn step_fetches_big_endian_words() {
    let mut cpu = CPU::new();
    cpu.load_program(&[0x61, 0x05, 0xA1, 0x23]).unwrap();
    cpu.step().unwrap();
    assert_eq!(cpu.get_register(1), 5);
    assert_eq!(cpu.get_pc(), 0x202);
    cpu.step().unwrap();
    assert_eq!(cpu.get_i(), 0x123);
}

#[test]
fn fetch_at_last_byte_fails() {
    let mut cpu = CPU::new();
    cpu.run_instruction(0x1FFF).unwrap(); // jump to 4095
    assert_eq!(
        cpu.step(),
        Err(Error::OutOfRangeAddress { addr: 4095, pc: 4095, instruction: 0 })
    );
}

#[test]
fn machine_resets_to_documented_state() {
    let cpu = CPU::new();
    assert_eq!(cpu.get_pc(), 0x200);
    assert_eq!(cpu.get_sp(), 0);
    assert_eq!(cpu.get_i(), 0);
    assert_eq!(cpu.get_delay_timer(), 0);
    assert_eq!(cpu.get_sound_timer(), 0);
    for x in 0..16 {
        assert_eq!(cpu.get_register(x), 0);
    }
    assert_eq!(cpu.get_stack(), &[0u16; 16]);
    assert!(!cpu.is_waiting_for_key());
    assert_eq!(cpu.get_memory().get(0), 0xF0); // font in place
}
