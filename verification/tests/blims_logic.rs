use fsw::blims::{
    col, find_col, gps_valid, phase_name, AltitudeBand, BLIMSMode, Phase, PhaseLogic, SimHardware,
    Steering, WindProfile,
};

#[test]
fn phase_names_and_numbers() {
    assert_eq!(phase_name(0), "Held");
    assert_eq!(phase_name(1), "InitialHold");
    assert_eq!(phase_name(2), "Upwind");
    assert_eq!(phase_name(3), "Downwind");
    assert_eq!(phase_name(4), "Neutral");
    assert_eq!(phase_name(5), "?");
    assert_eq!(phase_name(-1), "?");
    assert_eq!(Phase::Held.id(), 0);
    assert_eq!(Phase::Downwind.id(), 3);
    assert_eq!(phase_name(Phase::Neutral.id()), "Neutral");
    assert_ne!(BLIMSMode::STANDBY, BLIMSMode::LV);
}

#[test]
fn gps_validity_needs_flag_and_fix() {
    assert!(gps_valid(true, 2));
    assert!(gps_valid(true, 3));
    assert!(!gps_valid(true, 1));
    assert!(!gps_valid(false, 3));
}

#[test]
fn phase_follows_gps_and_altitude() {
    let mut logic = PhaseLogic::new();
    let d = logic.cycle(1000, true, 3, AltitudeBand::High);
    assert_eq!(d.phase, Phase::Upwind);
    assert!(d.reset_integral);
    assert_eq!(d.steering, Steering::UpwindTarget);
    assert_eq!(d.dt_ms, None);

    let d = logic.cycle(1050, true, 3, AltitudeBand::High);
    assert_eq!(d.phase, Phase::Upwind);
    assert!(!d.reset_integral);
    assert_eq!(d.dt_ms, Some(50));

    let d = logic.cycle(1400, true, 3, AltitudeBand::Middle);
    assert_eq!(d.phase, Phase::Downwind);
    assert!(d.reset_integral);
    assert_eq!(d.steering, Steering::DownwindTarget);
    assert_eq!(d.dt_ms, None);

    let d = logic.cycle(1450, true, 1, AltitudeBand::Middle);
    assert_eq!(d.phase, Phase::Held);
    assert_eq!(d.steering, Steering::Neutral);

    let d = logic.cycle(1500, true, 3, AltitudeBand::Low);
    assert_eq!(d.phase, Phase::Neutral);
    assert!(d.reset_integral);
    assert_eq!(d.steering, Steering::Neutral);
}

#[test]
fn held_without_gps_from_the_start() {
    let mut logic = PhaseLogic::new();
    let d = logic.cycle(10, false, 3, AltitudeBand::High);
    assert_eq!(d.phase, Phase::Held);
    assert!(!d.reset_integral);
}

#[test]
fn wind_profile_is_truncated() {
    let mut w = WindProfile::new();
    assert_eq!(w.size(), 0);
    let alts: Vec<u32> = (0..25).map(|i| (i as f32 * 100.0).to_bits()).collect();
    let dirs: Vec<u32> = (0..30).map(|i| (i as f32).to_bits()).collect();
    w.set_wind_profile(&alts, &dirs);
    assert_eq!(w.size(), 20);
    assert_eq!(w.altitudes_m[19], alts[19]);
    w.set_wind_profile(&alts[..3], &dirs[..5]);
    assert_eq!(w.size(), 3);
    assert_eq!(w.dirs_deg, dirs[..3].to_vec());
}

#[test]
fn sim_hardware_alarm_fires_at_its_time() {
    let mut hw = SimHardware::new();
    assert_eq!(hw.now_ms(), 0);
    let id = hw.schedule_alarm_ms(100);
    assert_eq!(id, 0);
    hw.advance_to_ms(99);
    assert!(!hw.alarm_fired);
    hw.advance_to_ms(100);
    assert!(hw.alarm_fired);
    assert_eq!(hw.now_ms(), 100);
    hw.cancel_alarm(id);
    assert!(!hw.alarm_fired);
}

#[test]
fn sim_hardware_cancel_and_saturation() {
    let mut hw = SimHardware::new();
    let a = hw.schedule_alarm_ms(50);
    let b = hw.schedule_alarm_ms(60);
    assert_eq!((a, b), (0, 1));
    hw.cancel_alarm(a);
    hw.advance_to_ms(70);
    assert!(hw.alarm_fired);
    let mut late = SimHardware::new();
    late.advance_to_ms(u32::MAX - 10);
    late.schedule_alarm_ms(100);
    late.advance_to_ms(u32::MAX - 1);
    assert!(!late.alarm_fired);
    late.advance_to_ms(u32::MAX);
    assert!(late.alarm_fired);
    late.set_pwm_level(9, 4915);
    late.set_enable_pin(34, true);
}

#[test]
fn csv_columns_are_found_by_trimmed_name() {
    let header: Vec<Vec<u8>> = vec![b" Timestamp".to_vec(), b"Altitude \r".to_vec(), b"GPS_Status".to_vec()];
    assert_eq!(find_col(&header, b"Timestamp"), Some(0));
    assert_eq!(find_col(&header, b"Altitude"), Some(1));
    assert_eq!(find_col(&header, b"Latitude"), None);
    assert_eq!(col(&header, b"GPS_Status"), 2);
    let blank: Vec<Vec<u8>> = vec![b"  ".to_vec(), Vec::new()];
    assert_eq!(find_col(&blank, b""), Some(0));
}

#[test]
fn clock_may_step_back_before_activation() {
    let mut logic = PhaseLogic::new();
    logic.cycle(1000, false, 0, AltitudeBand::High);
    let d = logic.cycle(900, true, 3, AltitudeBand::High);
    assert_eq!(d.phase, Phase::Upwind);
    assert_eq!(d.dt_ms, Some(0));
}
