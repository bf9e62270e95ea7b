use f429zi_logic::buttons::{ButtonAction, ButtonEvent, ButtonPhase, DEBOUNCE_MS, DFU_HOLD_MS};
use ButtonEvent::{Done, Edge, Elapsed, Level};
use f429zi_logic::clock::{clock_plan, flash_size, static_ram_size};
use f429zi_logic::dfu::{dfu_requested, DFU_CLEARED, DFU_MAGIC};
use f429zi_logic::fault::{
    read_and_clear, reason_from_marker, set_marker, ResetReason, CSR_BORRSTF, CSR_IWDGRSTF,
    CSR_PINRSTF, CSR_PORRSTF, CSR_SFTRSTF, MARKER_CLEARED,
};
use f429zi_logic::leds::{LedAction, LedState, LedTask, LedWait};
use f429zi_logic::ota::{
    boot_select_word, boot_slot, crc32, running_slot_addr, OtaWriter, SLOT_A_ADDR, SLOT_A_LEN, SLOT_B_ADDR, SLOT_B_LEN,
};
use f429zi_logic::sensor::{decode_rtd, run_config, write_frame, RtdReading, REG_CONFIG};

const ALL: [ResetReason; 7] = [
    ResetReason::PowerOn,
    ResetReason::NrstPin,
    ResetReason::Software,
    ResetReason::IwdgTimeout,
    ResetReason::BrownOut,
    ResetReason::RemoteReboot,
    ResetReason::Unknown,
];

#[test]
fn led_state_cycle() {
    assert_eq!(LedState::AllOff.next(), LedState::SlowBlink);
    assert_eq!(LedState::SlowBlink.next(), LedState::FastBlink);
    assert_eq!(LedState::FastBlink.next(), LedState::Chase);
    assert_eq!(LedState::Chase.next(), LedState::AllOn);
    assert_eq!(LedState::AllOn.next(), LedState::AllOff);
    let mut s = LedState::FastBlink;
    for _ in 0..5 {
        s = s.next();
    }
    assert_eq!(s, LedState::FastBlink);
}

#[test]
fn led_periods() {
    assert_eq!(LedState::AllOff.period_ms(), 0);
    assert_eq!(LedState::SlowBlink.period_ms(), 500);
    assert_eq!(LedState::FastBlink.period_ms(), 100);
    assert_eq!(LedState::Chase.period_ms(), 150);
    assert_eq!(LedState::AllOn.period_ms(), 0);
}

#[test]
fn led_task_chase_runs_one_light() {
    let mut t = LedTask::new();
    let expect = [[true, false, false], [false, true, false], [false, false, true], [true, false, false]];
    for leds in expect {
        let a = t.step(LedState::Chase);
        assert_eq!(a, LedAction { leds, wait: LedWait::ChangedOrTimeout(150) });
        t.wait_ended(false);
    }
}

#[test]
fn led_task_static_states_wait_for_change() {
    let mut t = LedTask::new();
    assert_eq!(t.step(LedState::AllOn), LedAction { leds: [true; 3], wait: LedWait::Changed });
    t.wait_ended(true);
    assert_eq!(t.step(LedState::AllOff), LedAction { leds: [false; 3], wait: LedWait::Changed });
}

#[test]
fn led_task_blink_halves() {
    let mut t = LedTask::new();
    assert_eq!(
        t.step(LedState::SlowBlink),
        LedAction { leds: [true; 3], wait: LedWait::ChangedOrTimeout(500) }
    );
    t.wait_ended(false);
    // The off-half keeps the period of the on-half even if the state moved on.
    assert_eq!(
        t.step(LedState::AllOn),
        LedAction { leds: [false; 3], wait: LedWait::ChangedOrTimeout(500) }
    );
    t.wait_ended(true);
    assert_eq!(t.step(LedState::AllOn), LedAction { leds: [true; 3], wait: LedWait::Changed });
    // A change during the on-half restarts from the (new) state.
    let mut t = LedTask::new();
    t.step(LedState::FastBlink);
    t.wait_ended(true);
    assert_eq!(
        t.step(LedState::FastBlink),
        LedAction { leds: [true; 3], wait: LedWait::ChangedOrTimeout(100) }
    );
}

#[test]
fn reset_reason_names() {
    let names: Vec<&str> = ALL.iter().map(|r| r.as_str()).collect();
    assert_eq!(
        names,
        ["power_on", "nrst_pin", "software", "iwdg_timeout", "brown_out", "remote_reboot", "unknown"]
    );
}

#[test]
fn reset_reason_from_flags() {
    let none = MARKER_CLEARED;
    assert_eq!(read_and_clear(CSR_PORRSTF | CSR_BORRSTF | CSR_PINRSTF, none), ResetReason::PowerOn);
    assert_eq!(read_and_clear(CSR_PINRSTF, none), ResetReason::NrstPin);
    assert_eq!(read_and_clear(CSR_SFTRSTF | CSR_PINRSTF, none), ResetReason::Software);
    assert_eq!(read_and_clear(CSR_IWDGRSTF | CSR_PINRSTF, none), ResetReason::IwdgTimeout);
    assert_eq!(read_and_clear(CSR_BORRSTF | CSR_PINRSTF, none), ResetReason::BrownOut);
    assert_eq!(read_and_clear(0, none), ResetReason::Unknown);
    assert_eq!(read_and_clear(0x0100_0000, 0x1234_5678), ResetReason::Unknown);
}

#[test]
fn marker_round_trip() {
    for r in ALL {
        let w = set_marker(r);
        assert_eq!(reason_from_marker(w), Some(r));
        assert_eq!(read_and_clear(CSR_SFTRSTF | CSR_PINRSTF, w), r);
        assert_eq!(read_and_clear(CSR_IWDGRSTF, w), r);
        // A power-on ignores whatever the CCM holds.
        assert_eq!(read_and_clear(CSR_PORRSTF, w), ResetReason::PowerOn);
    }
    assert_eq!(set_marker(ResetReason::RemoteReboot), 0xFA17_0006);
    assert_eq!(reason_from_marker(MARKER_CLEARED), None);
    assert_eq!(reason_from_marker(0xFA17_0000), None);
    assert_eq!(reason_from_marker(0xFA17_0008), None);
}

#[test]
fn ota_slots() {
    assert_eq!(running_slot_addr(0x0800_0000), SLOT_A_ADDR);
    assert_eq!(running_slot_addr(0x0000_0000), SLOT_A_ADDR);
    assert_eq!(running_slot_addr(0x0810_0000), SLOT_B_ADDR);
    assert_eq!(running_slot_addr(0x081F_FFFF), SLOT_B_ADDR);
    assert_eq!(running_slot_addr(0x0820_0000), SLOT_A_ADDR);
    let w = OtaWriter::new_for_inactive_slot(SLOT_A_ADDR);
    assert_eq!(w.target_addr(), SLOT_B_ADDR);
    assert_eq!(w.offset(), 0);
    let w = OtaWriter::new_for_inactive_slot(SLOT_B_ADDR);
    assert_eq!(w.target_addr(), SLOT_A_ADDR);
}

#[test]
fn ota_chunks_are_contiguous_and_bounded() {
    let mut w = OtaWriter::new_for_inactive_slot(SLOT_A_ADDR);
    assert_eq!(w.write_chunk(&[1, 2, 3]), Ok(SLOT_B_ADDR));
    assert_eq!(w.write_chunk(&[4; 10]), Ok(SLOT_B_ADDR + 3));
    assert_eq!(w.offset(), 13);
    let big = vec![0u8; (SLOT_B_LEN - 13) as usize];
    assert_eq!(w.write_chunk(&big), Ok(SLOT_B_ADDR + 13));
    assert_eq!(w.offset(), SLOT_B_LEN);
    assert_eq!(w.write_chunk(&[0]), Err(()));
    assert_eq!(w.offset(), SLOT_B_LEN);
    assert_eq!(w.write_chunk(&[]), Ok(SLOT_B_ADDR + SLOT_B_LEN));

    let mut a = OtaWriter::new_for_inactive_slot(SLOT_B_ADDR);
    let too_big = vec![0u8; SLOT_A_LEN as usize + 1];
    assert_eq!(a.write_chunk(&too_big), Err(()));
    assert_eq!(a.offset(), 0);
}

#[test]
fn crc32_check_value() {
    assert_eq!(crc32(b"123456789"), 0xCBF4_3926);
    assert_eq!(crc32(b""), 0);
    assert_eq!(crc32(b"a"), 0xE8B7_BE43);
}

#[test]
fn ota_finish() {
    let image = b"123456789";
    let mut w = OtaWriter::new_for_inactive_slot(SLOT_A_ADDR);
    w.write_chunk(image).unwrap();
    assert_eq!(w.finish(9, 0xCBF4_3926, image), Ok(SLOT_B_ADDR));
    let mut w = OtaWriter::new_for_inactive_slot(SLOT_A_ADDR);
    w.write_chunk(image).unwrap();
    assert_eq!(w.finish(9, 0xCBF4_3927, image), Err(()));
    let mut w = OtaWriter::new_for_inactive_slot(SLOT_A_ADDR);
    w.write_chunk(image).unwrap();
    assert_eq!(w.finish(10, 0xCBF4_3926, image), Err(()));
    let mut w = OtaWriter::new_for_inactive_slot(SLOT_A_ADDR);
    w.write_chunk(&image[..8]).unwrap();
    assert_eq!(w.finish(9, 0xCBF4_3926, image), Err(()));
}

#[test]
fn max31865_protocol() {
    assert_eq!(run_config(), 0xC2);
    assert_eq!(write_frame(REG_CONFIG, 0xC2), [0x80, 0xC2]);
    assert_eq!(write_frame(0x05, 0x12), [0x85, 0x12]);
    assert_eq!(write_frame(0x85, 0x12), [0x85, 0x12]);
    assert_eq!(decode_rtd([0xFF, 0xFE]), RtdReading::Ratio(0x7FFF));
    assert_eq!(decode_rtd([0x1D, 0xC4]), RtdReading::Ratio(0x0EE2));
    assert_eq!(decode_rtd([0x00, 0x01]), RtdReading::Fault);
    assert_eq!(decode_rtd([0x12, 0x35]), RtdReading::Fault);
    assert_eq!(decode_rtd([0, 0]), RtdReading::Ratio(0));
}

#[test]
fn dfu_request_word() {
    assert!(dfu_requested(DFU_MAGIC));
    assert!(dfu_requested(0xB00D_DF11));
    assert!(!dfu_requested(DFU_CLEARED));
    assert!(!dfu_requested(0xB00D_DF10));
}

#[test]
fn firmware_size() {
    assert_eq!(flash_size(0x0800_4000), 0x4000);
    assert_eq!(static_ram_size(0x2000_0000, 0x2000_0100, 0x2000_0100, 0x2000_0180), 0x180);
}

fn run(events: &[ButtonEvent]) -> (ButtonPhase, Vec<ButtonAction>) {
    let mut p = ButtonPhase::Idle;
    let mut actions = vec![p.action()];
    for e in events {
        p = p.on_event(*e);
        actions.push(p.action());
    }
    (p, actions)
}

#[test]
fn button_short_press() {
    let (p, actions) = run(&[Edge, Elapsed, Level(true), Level(true), Edge, Elapsed]);
    assert_eq!(p, ButtonPhase::CycleLeds);
    assert_eq!(
        actions,
        vec![
            ButtonAction::WaitRisingEdge,
            ButtonAction::Sleep(DEBOUNCE_MS),
            ButtonAction::ReadLevel,
            ButtonAction::ReadLevel,
            ButtonAction::WaitFallingEdgeOrTimeout(DFU_HOLD_MS),
            ButtonAction::Sleep(DEBOUNCE_MS),
            ButtonAction::CycleLeds,
        ]
    );
    assert_eq!(p.on_event(Done), ButtonPhase::Idle);
}

#[test]
fn button_release_during_debounce_is_short_press() {
    let (p, _) = run(&[Edge, Elapsed, Level(true), Level(false), Elapsed]);
    assert_eq!(p, ButtonPhase::CycleLeds);
}

#[test]
fn button_bounce_ignored() {
    let (p, _) = run(&[Edge, Elapsed, Level(false)]);
    assert_eq!(p, ButtonPhase::Idle);
}

#[test]
fn button_long_hold_enters_dfu() {
    let (p, actions) = run(&[Edge, Elapsed, Level(true), Level(true), Elapsed, Level(true)]);
    assert_eq!(p, ButtonPhase::EnterDfu);
    assert_eq!(actions.last(), Some(&ButtonAction::RebootToDfu));
    // Released right at the boundary: a short press after the release.
    let (p, _) = run(&[Edge, Elapsed, Level(true), Level(true), Elapsed, Level(false), Edge, Elapsed]);
    assert_eq!(p, ButtonPhase::CycleLeds);
}

#[test]
fn button_ignores_impossible_events() {
    assert_eq!(ButtonPhase::Idle.on_event(ButtonEvent::Elapsed), ButtonPhase::Idle);
    assert_eq!(ButtonPhase::Holding.on_event(ButtonEvent::Level(true)), ButtonPhase::Holding);
}

#[test]
fn clock_plan_gives_168_mhz() {
    let p = clock_plan();
    assert_eq!((p.hse_hz, p.pll_m, p.pll_n, p.pll_p, p.pll_q), (8_000_000, 8, 336, 2, 7));
    assert_eq!((p.apb1_div, p.apb2_div), (4, 2));
    let vco_in = p.hse_hz / p.pll_m;
    assert_eq!(vco_in, 1_000_000);
    assert_eq!(vco_in * p.pll_n / p.pll_p, 168_000_000);
    assert_eq!(vco_in * p.pll_n / p.pll_q, 48_000_000);
    assert_eq!(168_000_000 / p.apb1_div, 42_000_000);
    assert_eq!(168_000_000 / p.apb2_div, 84_000_000);
}

#[test]
fn ota_chunk_stream_then_finish() {
    let chunks: [&[u8]; 3] = [b"1234", b"", b"56789"];
    let mut w = OtaWriter::new_for_inactive_slot(SLOT_A_ADDR);
    let mut image = Vec::new();
    for c in chunks {
        let addr = w.write_chunk(c).unwrap();
        assert_eq!(addr, SLOT_B_ADDR + image.len() as u32);
        image.extend_from_slice(c);
    }
    assert_eq!(w.offset(), 9);
    assert_eq!(w.finish(9, crc32(&image), &image), Ok(SLOT_B_ADDR));
}

#[test]
fn boot_select_word_round_trip() {
    assert_eq!(boot_slot(boot_select_word(SLOT_A_ADDR)), SLOT_A_ADDR);
    assert_eq!(boot_slot(boot_select_word(SLOT_B_ADDR)), SLOT_B_ADDR);
    assert_eq!(boot_select_word(SLOT_B_ADDR), 0xB007_5E0B);
    assert_eq!(boot_slot(0xFFFF_FFFF), SLOT_A_ADDR);
    assert_eq!(boot_slot(0), SLOT_A_ADDR);
}
