use ferris8::Cpu;

fn boot(rom: &[u8]) -> Cpu {
    let mut cpu = Cpu::new();
    assert!(cpu.load_rom(rom));
    cpu
}

#[test]
fn load_then_add_immediate_wraps_without_flag_effect() {
    // 6005: V0 = 5; 70FE: V0 += 254 -> (5 + 254) mod 256 = 3, VF untouched.
    let mut cpu = boot(&[0x60, 0x05, 0x70, 0xFE]);
    cpu.v[0xF] = 0x5A;
    cpu.cycle();
    cpu.cycle();
    assert_eq!(cpu.v[0], 3);
    assert_eq!(cpu.v[0xF], 0x5A, "immediate add must not touch the flag");
}

#[test]
fn alu_add_sets_carry_iff_sum_exceeds_255() {
    // 60C8: V0 = 200; 6164: V1 = 100; 8014: V0 += V1.
    let mut cpu = boot(&[0x60, 0xC8, 0x61, 0x64, 0x80, 0x14]);
    cpu.cycle();
    cpu.cycle();
    cpu.cycle();
    assert_eq!(cpu.v[0], 44, "(200 + 100) mod 256");
    assert_eq!(cpu.v[0xF], 1, "carry set");

    // 6005: V0 = 5; 6103: V1 = 3; 8014: V0 += V1.
    let mut cpu = boot(&[0x60, 0x05, 0x61, 0x03, 0x80, 0x14]);
    cpu.cycle();
    cpu.cycle();
    cpu.cycle();
    assert_eq!(cpu.v[0], 8);
    assert_eq!(cpu.v[0xF], 0, "no carry");
}

#[test]
fn alu_sub_sets_not_borrow() {
    // 600A: V0 = 10; 6103: V1 = 3; 8015: V0 -= V1.
    let mut cpu = boot(&[0x60, 0x0A, 0x61, 0x03, 0x80, 0x15]);
    cpu.cycle();
    cpu.cycle();
    cpu.cycle();
    assert_eq!(cpu.v[0], 7);
    assert_eq!(cpu.v[0xF], 1, "no borrow");

    // 6003: V0 = 3; 610A: V1 = 10; 8015: V0 -= V1 wraps.
    let mut cpu = boot(&[0x60, 0x03, 0x61, 0x0A, 0x80, 0x15]);
    cpu.cycle();
    cpu.cycle();
    cpu.cycle();
    assert_eq!(cpu.v[0], 249);
    assert_eq!(cpu.v[0xF], 0, "borrow");
}

#[test]
fn shifts_capture_the_preshift_bit_even_when_the_result_is_zero() {
    // 6001: V0 = 1; 8006: V0 >>= 1.
    let mut cpu = boot(&[0x60, 0x01, 0x80, 0x06]);
    cpu.cycle();
    cpu.cycle();
    assert_eq!(cpu.v[0], 0, "shift result is zero");
    assert_eq!(cpu.v[0xF], 1, "pre-shift LSB captured");

    // 6080: V0 = 0x80; 800E: V0 <<= 1.
    let mut cpu = boot(&[0x60, 0x80, 0x80, 0x0E]);
    cpu.cycle();
    cpu.cycle();
    assert_eq!(cpu.v[0], 0, "shift result is zero");
    assert_eq!(cpu.v[0xF], 1, "pre-shift MSB captured");

    // 6006: V0 = 6; 8006: V0 >>= 1 with a clear LSB.
    let mut cpu = boot(&[0x60, 0x06, 0x80, 0x06]);
    cpu.cycle();
    cpu.cycle();
    assert_eq!(cpu.v[0], 3);
    assert_eq!(cpu.v[0xF], 0);
}

#[test]
fn skip_instructions() {
    // 6007: V0 = 7; 3007: skip (taken); 6199 skipped; 6101: V1 = 1.
    let mut cpu = boot(&[0x60, 0x07, 0x30, 0x07, 0x61, 0x99, 0x61, 0x01]);
    for _ in 0..3 {
        cpu.cycle();
    }
    assert_eq!(cpu.v[1], 1);

    // 4007 with V0 = 7: not taken; the next instruction runs.
    let mut cpu = boot(&[0x60, 0x07, 0x40, 0x07, 0x61, 0x99]);
    for _ in 0..3 {
        cpu.cycle();
    }
    assert_eq!(cpu.v[1], 0x99);

    // 5010 with V0 == V1 == 0: taken.
    let mut cpu = boot(&[0x50, 0x10, 0x61, 0x99, 0x61, 0x01]);
    cpu.cycle();
    cpu.cycle();
    assert_eq!(cpu.v[1], 1);

    // 9010 with V0 == V1: not taken.
    let mut cpu = boot(&[0x90, 0x10, 0x61, 0x99]);
    cpu.cycle();
    cpu.cycle();
    assert_eq!(cpu.v[1], 0x99);
}

#[test]
fn jump_and_call_and_return() {
    // 1206: jump over 6199 to 6101.
    let mut cpu = boot(&[0x12, 0x06, 0x61, 0x99, 0x00, 0x00, 0x61, 0x01]);
    cpu.cycle();
    assert_eq!(cpu.pc, 0x206);
    cpu.cycle();
    assert_eq!(cpu.v[1], 1);

    // 2206: call a routine that sets V2 and returns; then 6101 runs.
    let mut cpu = boot(&[0x22, 0x06, 0x61, 0x01, 0x00, 0x00, 0x62, 0x05, 0x00, 0xEE]);
    cpu.cycle();
    assert_eq!(cpu.sp, 1);
    assert_eq!(cpu.pc, 0x206);
    cpu.cycle(); // 6205
    cpu.cycle(); // 00EE
    assert_eq!(cpu.sp, 0);
    assert_eq!(cpu.pc, 0x202);
    cpu.cycle(); // 6101
    assert_eq!(cpu.v[1], 1);
    assert_eq!(cpu.v[2], 5);
    assert!(!cpu.halted);
}

#[test]
fn invalid_jump_is_a_soft_error() {
    // 1353: odd target, rejected.
    let mut cpu = boot(&[0x13, 0x53]);
    cpu.cycle();
    assert_eq!(cpu.error_count, 1);
    assert_eq!(cpu.pc, 0x202, "the counter only advanced past the fetch");
    assert!(!cpu.halted);

    // 1100: target below the program region, rejected.
    let mut cpu = boot(&[0x11, 0x00]);
    cpu.cycle();
    assert_eq!(cpu.error_count, 1);
    assert_eq!(cpu.pc, 0x202);
}

#[test]
fn return_on_empty_stack_halts_and_later_cycles_are_noops() {
    let mut cpu = boot(&[0x00, 0xEE, 0x60, 0x01]);
    cpu.cycle();
    assert!(cpu.halted);
    let pc = cpu.pc;
    let cycles = cpu.cycle_count;
    cpu.cycle();
    cpu.cycle();
    assert!(cpu.halted);
    assert_eq!(cpu.pc, pc, "a halted machine does not move");
    assert_eq!(cpu.cycle_count, cycles, "a halted machine does not tick");
    assert_eq!(cpu.v[0], 0);
    cpu.reset();
    assert!(!cpu.halted);
    assert_eq!(cpu.pc, 0x200);
}

#[test]
fn stack_overflow_is_a_soft_error() {
    // 2200: call self, forever; each call pushes a frame.
    let mut cpu = boot(&[0x22, 0x00]);
    for _ in 0..16 {
        cpu.cycle();
    }
    assert_eq!(cpu.sp, 16);
    assert_eq!(cpu.error_count, 0);
    cpu.cycle();
    assert_eq!(cpu.sp, 16, "the seventeenth call is refused");
    assert_eq!(cpu.error_count, 1);
}

#[test]
fn load_rom_rejections_leave_memory_and_pc_unchanged() {
    let mut cpu = boot(&[0x60, 0x2A]);
    cpu.cycle();
    assert_eq!(cpu.pc, 0x202);
    let empty: Vec<u8> = Vec::new();
    assert!(!cpu.load_rom(&empty));
    assert_eq!(cpu.pc, 0x202, "PC unchanged after a rejected load");
    assert_eq!(cpu.memory.read_byte(0x200), 0x60, "memory unchanged");
    let oversized = vec![0u8; 3585];
    assert!(!cpu.load_rom(&oversized));
    assert_eq!(cpu.pc, 0x202);
    assert_eq!(cpu.memory.read_byte(0x200), 0x60);
    assert!(cpu.load_rom(&[0x61, 0x01]));
    assert_eq!(cpu.pc, 0x200);
    assert_eq!(cpu.memory.read_byte(0x200), 0x61);
}

#[test]
fn end_to_end_add_and_clear_scenario() {
    // 6005: V0 = 5; 6103: V1 = 3; 8014: V0 += V1; 00E0: clear display.
    let mut cpu = boot(&[0x60, 0x05, 0x61, 0x03, 0x80, 0x14, 0x00, 0xE0]);
    cpu.draw_flag = false;
    cpu.display.set_pixel(7, 7, true);
    cpu.cycle();
    cpu.cycle();
    cpu.cycle();
    assert_eq!(cpu.v[0], 8);
    assert_eq!(cpu.v[0xF], 0);
    assert!(!cpu.draw_flag);
    cpu.cycle();
    assert!(cpu.draw_flag, "clear marks a redraw");
    assert_eq!(cpu.display.count_active_pixels(), 0);
}

#[test]
fn glyph_lookup_and_draw_scenario() {
    // A050: I = 0x50; F029: I = glyph of V0 = 0; D005: draw 5 rows at (0,0).
    let mut cpu = boot(&[0xA0, 0x50, 0xF0, 0x29, 0xD0, 0x05]);
    cpu.cycle();
    assert_eq!(cpu.i, 0x50, "Annn loads the glyph table address");
    cpu.cycle();
    assert_eq!(cpu.i, 0x50, "glyph '0' lives at 0x50");
    cpu.cycle();
    assert!(cpu.draw_flag);
    assert_eq!(cpu.v[0xF], 0, "no collision on a blank screen");
    // Glyph 0 bitmap: F0 90 90 90 F0.
    let rows: [u8; 5] = [0xF0, 0x90, 0x90, 0x90, 0xF0];
    for (y, row) in rows.iter().enumerate() {
        for x in 0..8 {
            let expected = (row >> (7 - x)) & 1 == 1;
            assert_eq!(
                cpu.display.get_pixel(x, y),
                expected,
                "pixel ({}, {}) of glyph 0",
                x,
                y
            );
        }
    }
}

#[test]
fn ten_decode_failures_halt_the_machine() {
    // 8008 is an unknown ALU sub-opcode: one decode failure per cycle.
    let mut rom = Vec::new();
    for _ in 0..12 {
        rom.push(0x80);
        rom.push(0x08);
    }
    let mut cpu = boot(&rom);
    for _ in 0..10 {
        cpu.cycle();
    }
    assert_eq!(cpu.error_count, 10);
    assert!(!cpu.is_running(), "ten soft errors leave the machine unhealthy");
    let pc = cpu.pc;
    let cycles = cpu.cycle_count;
    cpu.cycle();
    assert!(cpu.halted, "the circuit breaker trips");
    assert_eq!(cpu.pc, pc, "nothing is fetched past the breaker");
    assert_eq!(cpu.cycle_count, cycles);
    let before = cpu.error_count;
    cpu.cycle();
    assert!(cpu.halted);
    assert_eq!(cpu.error_count, before, "further cycles are no-ops");
}

#[test]
fn sprite_draw_wraps_at_the_right_edge() {
    // 603F: V0 = 63; 6100: V1 = 0; A200 + offset: point I at the row byte.
    // Use F-family block store to place the sprite byte, then draw.
    let mut cpu = boot(&[0x60, 0x3F, 0x61, 0x00, 0xA3, 0x00, 0xD0, 0x11]);
    cpu.memory.write_byte(0x300, 0xFF);
    for _ in 0..4 {
        cpu.cycle();
    }
    assert!(cpu.display.get_pixel(63, 0));
    for c in 0..7 {
        assert!(cpu.display.get_pixel(c, 0), "column {} wraps", c);
    }
}

#[test]
fn draw_with_zero_height_is_a_noop() {
    let mut cpu = boot(&[0xA3, 0x00, 0xD0, 0x00]);
    cpu.draw_flag = false;
    cpu.cycle();
    cpu.cycle();
    assert!(!cpu.draw_flag);
    assert_eq!(cpu.error_count, 0);
    assert_eq!(cpu.display.count_active_pixels(), 0);
}

#[test]
fn draw_past_memory_end_is_rejected() {
    // AFFF: I = 0xFFF; D002: needs bytes 0xFFF..0x1001.
    let mut cpu = boot(&[0xAF, 0xFF, 0xD0, 0x02]);
    cpu.cycle();
    cpu.cycle();
    assert_eq!(cpu.error_count, 1);
    assert_eq!(cpu.display.count_active_pixels(), 0);
}

#[test]
fn timers_decrement_toward_zero() {
    // F015: DT = V0; F007: V1 = DT (after one decrement).
    let mut cpu = boot(&[0x60, 0x03, 0xF0, 0x15, 0xF1, 0x07]);
    cpu.cycle();
    cpu.cycle();
    assert_eq!(cpu.delay_timer, 2, "set to 3, then one decrement this cycle");
    cpu.cycle();
    assert_eq!(cpu.v[1], 2, "read before this cycle's decrement");
    assert_eq!(cpu.delay_timer, 1);
    cpu.cycle();
    cpu.cycle();
    assert_eq!(cpu.delay_timer, 0, "the timer never goes below zero");
}

#[test]
fn sound_timer_requests_a_tone_while_nonzero() {
    let mut cpu = boot(&[0x60, 0x02, 0xF0, 0x18, 0x00, 0x00]);
    assert!(!cpu.tone_requested());
    cpu.cycle();
    cpu.cycle();
    assert_eq!(cpu.sound_timer, 1, "set to 2, then one decrement this cycle");
    assert!(cpu.tone_requested());
    cpu.cycle();
    assert_eq!(cpu.sound_timer, 0);
    assert!(!cpu.tone_requested());
}

#[test]
fn index_arithmetic_masks_into_the_address_space() {
    // AFFF: I = 0xFFF; 6002: V0 = 2; F01E: I += V0, masked to 12 bits.
    let mut cpu = boot(&[0xAF, 0xFF, 0x60, 0x02, 0xF0, 0x1E]);
    cpu.cycle();
    cpu.cycle();
    cpu.cycle();
    assert_eq!(cpu.i, 0x001, "(0xFFF + 2) & 0xFFF");
}

#[test]
fn bcd_store() {
    // 60EA: V0 = 234; A300: I = 0x300; F033: BCD of V0.
    let mut cpu = boot(&[0x60, 0xEA, 0xA3, 0x00, 0xF0, 0x33]);
    cpu.cycle();
    cpu.cycle();
    cpu.cycle();
    assert_eq!(cpu.memory.read_byte(0x300), 2);
    assert_eq!(cpu.memory.read_byte(0x301), 3);
    assert_eq!(cpu.memory.read_byte(0x302), 4);
    assert_eq!(cpu.error_count, 0);
}

#[test]
fn bcd_out_of_range_is_rejected() {
    // AFFE: I = 0xFFE; F033 needs three bytes.
    let mut cpu = boot(&[0xAF, 0xFE, 0xF0, 0x33]);
    cpu.cycle();
    cpu.cycle();
    assert_eq!(cpu.error_count, 1);
    assert_eq!(cpu.memory.read_byte(0xFFE), 0);
}

#[test]
fn register_block_store_and_load() {
    // Store V0..V2 at 0x300, clear the registers, load them back.
    let mut cpu = boot(&[0xA3, 0x00, 0xF2, 0x55, 0x60, 0x00, 0x61, 0x00, 0x62, 0x00, 0xF2, 0x65]);
    cpu.v[0] = 11;
    cpu.v[1] = 22;
    cpu.v[2] = 33;
    cpu.cycle();
    cpu.cycle();
    assert_eq!(cpu.memory.read_byte(0x300), 11);
    assert_eq!(cpu.memory.read_byte(0x301), 22);
    assert_eq!(cpu.memory.read_byte(0x302), 33);
    assert_eq!(cpu.memory.read_byte(0x303), 0);
    for _ in 0..4 {
        cpu.cycle();
    }
    assert_eq!(cpu.v[0], 11);
    assert_eq!(cpu.v[1], 22);
    assert_eq!(cpu.v[2], 33);
    assert_eq!(cpu.error_count, 0);
}

#[test]
fn block_transfer_past_memory_end_is_rejected() {
    // AFFF: I = 0xFFF; F155: would write V0..V1 at 0xFFF..0x1001.
    let mut cpu = boot(&[0xAF, 0xFF, 0xF1, 0x55]);
    cpu.cycle();
    cpu.cycle();
    assert_eq!(cpu.error_count, 1);
    assert_eq!(cpu.memory.read_byte(0xFFF), 0);
}

#[test]
fn block_store_cannot_touch_the_glyph_table() {
    // A050: I = 0x50; F155: store V0..V1 over the glyph table: skipped bytes.
    let mut cpu = boot(&[0xA0, 0x50, 0xF1, 0x55]);
    cpu.v[0] = 0xAB;
    cpu.v[1] = 0xCD;
    cpu.cycle();
    cpu.cycle();
    assert!(cpu.memory.validate_integrity(), "the glyph table is write-protected");
}

#[test]
fn key_skip_instructions() {
    // E09E: skip if key V0 pressed; 6101 lands only when not skipped.
    let mut cpu = boot(&[0xE0, 0x9E, 0x61, 0x99, 0x61, 0x01]);
    cpu.key_down(0);
    cpu.cycle();
    cpu.cycle();
    assert_eq!(cpu.v[1], 1, "pressed: the next instruction was skipped");

    let mut cpu = boot(&[0xE0, 0xA1, 0x61, 0x99, 0x61, 0x01]);
    cpu.cycle();
    cpu.cycle();
    assert_eq!(cpu.v[1], 1, "not pressed: ExA1 skips");

    let mut cpu = boot(&[0xE0, 0x9E, 0x61, 0x99]);
    cpu.cycle();
    cpu.cycle();
    assert_eq!(cpu.v[1], 0x99, "not pressed: Ex9E does not skip");
}

#[test]
fn blocking_key_wait_rewinds_until_a_key_arrives() {
    let mut cpu = boot(&[0xF0, 0x0A, 0x61, 0x01]);
    cpu.cycle();
    assert_eq!(cpu.pc, 0x200, "no key: the instruction retries");
    cpu.cycle();
    assert_eq!(cpu.pc, 0x200);
    cpu.key_down(0xB);
    cpu.cycle();
    assert_eq!(cpu.v[0], 0xB, "the latched key is consumed");
    assert_eq!(cpu.pc, 0x202);
    cpu.cycle();
    assert_eq!(cpu.v[1], 1);
}

#[test]
fn random_masks_and_is_reproducible_per_session() {
    // C0FF: V0 = random & 0xFF; C10F: V1 = random & 0x0F.
    let mut a = boot(&[0xC0, 0xFF, 0xC1, 0x0F]);
    let mut b = boot(&[0xC0, 0xFF, 0xC1, 0x0F]);
    a.cycle();
    a.cycle();
    b.cycle();
    b.cycle();
    assert_eq!(a.v[0], b.v[0], "same seed, same sequence");
    assert_eq!(a.v[1], b.v[1]);
    assert!(a.v[1] <= 0x0F, "the mask applies");
    // The generator is the documented linear-congruential step from 12345.
    let s1: u64 = (12345u64 * 1103515245 + 12345) % 0x1_0000_0000;
    assert_eq!(a.v[0], ((s1 >> 16) & 0xFF) as u8);
}

#[test]
fn jump_with_offset_validates_the_target() {
    // 6004: V0 = 4; B202: PC = 4 + 0x202 = 0x206; 6101 lands there.
    let mut cpu = boot(&[0x60, 0x04, 0xB2, 0x02, 0x00, 0x00, 0x61, 0x01]);
    cpu.cycle();
    cpu.cycle();
    assert_eq!(cpu.pc, 0x206);
    cpu.cycle();
    assert_eq!(cpu.v[1], 1);

    // 6001: V0 = 1; B202: target 0x203 is odd, rejected.
    let mut cpu = boot(&[0x60, 0x01, 0xB2, 0x02]);
    cpu.cycle();
    cpu.cycle();
    assert_eq!(cpu.error_count, 1);
    assert_eq!(cpu.pc, 0x204);
}

#[test]
fn invalid_pc_is_corrected_with_a_soft_error() {
    let mut cpu = boot(&[0x60, 0x01]);
    cpu.pc = 0x100;
    cpu.cycle();
    assert_eq!(cpu.pc, 0x200, "a wild counter is clamped to the program start");
    assert_eq!(cpu.error_count, 1);
    assert!(!cpu.halted);
    cpu.pc = 0x203;
    cpu.cycle();
    assert_eq!(cpu.error_count, 2, "an odd counter is masked even");
    assert_eq!(cpu.pc, 0x204, "masked to 0x202, then advanced past the fetch");
}

#[test]
fn explicit_halt_opcode() {
    let mut cpu = boot(&[0x00, 0x00, 0x60, 0x01]);
    cpu.cycle();
    assert!(cpu.halted);
    cpu.cycle();
    assert_eq!(cpu.v[0], 0);
}

#[test]
fn health_reporting() {
    let mut cpu = boot(&[0x13, 0x53, 0x13, 0x53]);
    assert!(cpu.is_healthy());
    assert!(cpu.is_running());
    for _ in 0..5 {
        cpu.cycle();
        cpu.pc = 0x200;
    }
    assert!(!cpu.is_healthy(), "five errors make the machine unhealthy");
    assert!(!cpu.is_running());
    assert!(!cpu.halted);
}

#[test]
fn display_buffer_and_diagnostics() {
    let mut cpu = boot(&[0xA0, 0x50, 0xD0, 0x05]);
    cpu.cycle();
    cpu.cycle();
    let buf = cpu.get_display_buffer();
    assert_eq!(buf.len(), 64 * 32);
    assert_eq!(buf[0], 255, "glyph 0 sets the top-left pixel");
    assert_eq!(buf[4], 0);
    assert!(!cpu.get_stats().is_empty());
    assert!(!cpu.get_debug_info().is_empty());
    assert!(cpu.memory_dump(0x200, 16).contains("A0"));
}

#[test]
fn key_events_through_the_cpu_are_gated() {
    let mut cpu = Cpu::new();
    cpu.key_down(200);
    assert!(!cpu.input.is_key_pressed(200 % 16));
    cpu.key_down(4);
    assert!(cpu.input.is_key_pressed(4));
    cpu.key_up(4);
    assert!(!cpu.input.is_key_pressed(4));
}

#[test]
fn reset_restores_the_initial_state() {
    let mut cpu = boot(&[0x60, 0x2A, 0xF0, 0x18]);
    cpu.cycle();
    cpu.cycle();
    cpu.key_down(3);
    cpu.reset();
    assert_eq!(cpu.v[0], 0);
    assert_eq!(cpu.pc, 0x200);
    assert_eq!(cpu.sp, 0);
    assert_eq!(cpu.cycle_count, 0);
    assert_eq!(cpu.error_count, 0);
    assert_eq!(cpu.sound_timer, 0);
    assert!(!cpu.input.is_key_pressed(3));
    assert_eq!(cpu.memory.read_byte(0x200), 0, "the program region is cleared");
    assert!(cpu.memory.validate_integrity(), "the glyphs are rewritten");
}
