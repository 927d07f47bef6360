use ws2812_pio::encoder::encode_frame;
use ws2812_pio::pump::{Pump, PumpAction, MIN_LATCH_US};
use ws2812_pio::timing::{
    cycle_period, BitProgram, Pulse, Slot, CLOCK_DIV_FRAC, CLOCK_DIV_INT, SYS_CLOCK_HZ,
};

#[test]
fn symbols_have_equal_length_and_one_is_high_longer() {
    let p = BitProgram::ws2812();
    assert_eq!(p.symbol_cycles(true), p.symbol_cycles(false));
    assert_eq!(p.symbol_cycles(true), 10);
    assert!(p.phase_cycles(true, true) > p.phase_cycles(false, true));
    assert_eq!(p.phase_cycles(true, true), 7);
    assert_eq!(p.phase_cycles(true, false), 3);
    assert_eq!(p.phase_cycles(false, true), 2);
    assert_eq!(p.phase_cycles(false, false), 8);
    assert!(p.keeps_discipline());
    assert!(p.is_pulse_shaped());
}

#[test]
fn symbol_durations_scale_with_cycle_length() {
    let p = BitProgram::ws2812();
    for t in [1u64, 125, 1000] {
        assert_eq!(t * p.symbol_cycles(true) as u64, t * p.symbol_cycles(false) as u64);
        assert!(t * p.phase_cycles(true, true) as u64 > t * p.phase_cycles(false, true) as u64);
    }
}

#[test]
fn board_clock_gives_125_ns_cycles() {
    assert_eq!(cycle_period(SYS_CLOCK_HZ, CLOCK_DIV_INT, CLOCK_DIV_FRAC), 125_000);
    assert_eq!(cycle_period(125_000_000, 1, 0), 8_000);
    assert_eq!(cycle_period(1_000_000, 1, 128), 1_500_000);
}

#[test]
fn installed_program_meets_device_timing() {
    let p = BitProgram::ws2812();
    assert!(p.meets_device_timing(125_000));
    // twice as fast: a zero's high time of 125 ns is too short
    assert!(!p.meets_device_timing(62_500));
    // twice as slow: a one's high time of 1750 ns is too long
    assert!(!p.meets_device_timing(250_000));
}

#[test]
fn swapped_tails_break_discipline() {
    let p = BitProgram::ws2812();
    let q = BitProgram { one: p.zero, zero: p.one, ..p };
    assert!(!q.keeps_discipline());
    assert!(!q.is_pulse_shaped());
    let r = BitProgram { one: Slot { high: true, delay: 3 }, ..p };
    assert!(!r.keeps_discipline());
}

#[test]
fn pulse_for_each_bit() {
    let p = BitProgram::ws2812();
    assert_eq!(p.pulse(true), Pulse { high_cycles: 7, low_cycles: 3 });
    assert_eq!(p.pulse(false), Pulse { high_cycles: 2, low_cycles: 8 });
}

#[test]
fn single_pixel_end_to_end() {
    let words = encode_frame(&[0x00, 0xFF, 0x00, 0x00]).unwrap();
    assert_eq!(words, vec![0x00FF0000]);

    let p = BitProgram::ws2812();
    let pulses = p.frame_pulses(&words);
    assert_eq!(pulses.len(), 32);
    for (k, pulse) in pulses.iter().enumerate() {
        let bit = (8..16).contains(&k);
        assert_eq!(*pulse, p.pulse(bit));
    }

    let mut pump = Pump::from_buffer(vec![0x00, 0xFF, 0x00, 0x00]).unwrap();
    assert_eq!(pump.next_action(true), PumpAction::Push(0x00FF0000));
    assert_eq!(pump.next_action(true), PumpAction::Pause(50));
    match pump.next_action(true) {
        PumpAction::Latch(us) => assert!(us >= MIN_LATCH_US),
        other => panic!("expected the latch gap, got {:?}", other),
    }
    assert!(pump.is_done());
    assert_eq!(pump.next_action(true), PumpAction::FrameDone);
}

#[test]
fn pulses_follow_word_order_and_msb_first() {
    let p = BitProgram::ws2812();
    let pulses = p.frame_pulses(&[0x80000000, 0x00000001]);
    assert_eq!(pulses.len(), 64);
    for (k, pulse) in pulses.iter().enumerate() {
        assert_eq!(*pulse, p.pulse(k == 0 || k == 63));
    }
    assert!(p.frame_pulses(&[]).is_empty());
}

#[test]
fn wire_bits_are_buffer_bytes_msb_first() {
    let buf = [0x14u8, 0xFF, 0x93, 0x00, 0x80, 0x01, 0x5A, 0xC3];
    let words = encode_frame(&buf).unwrap();
    let p = BitProgram::ws2812();
    let pulses = p.frame_pulses(&words);
    assert_eq!(pulses.len(), buf.len() * 8);
    for (k, pulse) in pulses.iter().enumerate() {
        let bit = (buf[k / 8] >> (7 - k % 8)) & 1 == 1;
        assert_eq!(*pulse, p.pulse(bit));
    }
}
