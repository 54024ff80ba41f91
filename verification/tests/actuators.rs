use fsw::actuator::{
    AirbrakeActuator, Buzzer, Chute, Mav, Ssa, AIRBRAKE_CLOSE_US, AIRBRAKE_OPEN_US, MAV_CLOSE_US,
    MAV_MAX_US, MAV_MIN_US, MAV_OPEN_US, SV,
};
use fsw::airbrake::AirbrakePhase;

#[test]
fn ssa_fires_each_charge_for_its_duration() {
    let mut ssa = Ssa::new();
    assert!(!ssa.drogue_high && !ssa.main_high);
    ssa.trigger(Chute::Drogue, 1000, 500);
    assert!(ssa.drogue_high);
    assert!(!ssa.main_high);
    ssa.update(1499);
    assert!(ssa.drogue_high);
    ssa.trigger(Chute::Main, 1200, 1000);
    ssa.update(1500);
    assert!(!ssa.drogue_high);
    assert!(ssa.drogue_off_time.is_none());
    assert!(ssa.main_high);
    ssa.update(2200);
    assert!(!ssa.main_high);
}

#[test]
fn buzzer_beeps_the_requested_number_of_times() {
    let mut b = Buzzer::new();
    b.buzz(2, 0);
    assert!(b.is_on());
    assert_eq!(b.remaining_beeps(), 2);
    let mut rising_edges = 1;
    let mut was_on = true;
    let mut t = 0u64;
    while t <= 1000 {
        b.update(t);
        if b.is_on() && !was_on {
            rising_edges += 1;
        }
        was_on = b.is_on();
        t += 10;
    }
    assert_eq!(rising_edges, 2);
    assert!(!b.is_on());
    assert_eq!(b.remaining_beeps(), 0);
}

#[test]
fn buzzer_pattern_timing() {
    let mut b = Buzzer::new();
    b.buzz(3, 1000);
    b.update(1099);
    assert!(b.is_on());
    b.update(1100);
    assert!(!b.is_on());
    assert_eq!(b.remaining_beeps(), 2);
    b.update(1150);
    assert!(!b.is_on());
    b.update(1200);
    assert!(b.is_on());
    b.buzz(5, 1200);
    assert_eq!(b.remaining_beeps(), 2);
}

#[test]
fn buzzer_zero_request_during_sequence_is_ignored() {
    let mut b = Buzzer::new();
    b.buzz(2, 0);
    b.update(100);
    assert_eq!(b.remaining_beeps(), 1);
    assert!(!b.is_on());
    b.buzz(0, 150);
    assert_eq!(b.remaining_beeps(), 1);
    assert!(!b.is_on());
    b.update(200);
    assert!(b.is_on());
    b.update(300);
    assert_eq!(b.remaining_beeps(), 0);
    assert!(!b.is_on());
}

#[test]
fn buzzer_zero_request_while_idle_stays_silent() {
    let mut b = Buzzer::new();
    b.buzz(0, 0);
    assert!(!b.is_on());
    assert_eq!(b.remaining_beeps(), 0);
    for t in [100u64, 200, 300, 1000] {
        b.update(t);
        assert!(!b.is_on());
        assert_eq!(b.remaining_beeps(), 0);
    }
    b.buzz(1, 2000);
    assert!(b.is_on());
    assert_eq!(b.remaining_beeps(), 1);
}

#[test]
fn mav_pulse_widths_match_documented_values() {
    assert_eq!(MAV_OPEN_US, 2015);
    assert_eq!(MAV_CLOSE_US, 995);
    let mut mav = Mav::new();
    assert_eq!(mav.pulse_width(), 995);
    mav.open(0, 0);
    assert_eq!(mav.pulse_width(), 2015);
    mav.close();
    assert_eq!(mav.pulse_width(), 995);
}

#[test]
fn mav_timed_opening() {
    let mut mav = Mav::new();
    assert_eq!(mav.pulse_width(), MAV_CLOSE_US);
    assert!(!mav.is_open());
    mav.open(1000, 50);
    assert!(mav.is_open());
    assert_eq!(mav.pulse_width(), MAV_OPEN_US);
    mav.update(1049);
    assert!(mav.is_open());
    mav.update(1050);
    assert!(!mav.is_open());
    assert_eq!(mav.pulse_width(), MAV_CLOSE_US);
}

#[test]
fn mav_open_without_duration_stays_open() {
    let mut mav = Mav::new();
    mav.open(0, 10);
    mav.update(u64::MAX);
    assert!(mav.is_open());
    mav.close();
    assert!(!mav.is_open());
}

#[test]
fn mav_pulse_is_clamped() {
    let mut mav = Mav::new();
    mav.set_pulse_width(5000);
    assert_eq!(mav.pulse_width(), MAV_MAX_US);
    mav.set_pulse_width(100);
    assert_eq!(mav.pulse_width(), MAV_MIN_US);
    mav.set_pulse_width(1500);
    assert_eq!(mav.pulse_width(), 1500);
}

#[test]
fn airbrake_command_and_retract() {
    let mut ab = AirbrakeActuator::new();
    assert_eq!(ab.pulse_width(), AIRBRAKE_CLOSE_US);
    assert_eq!(f32::from_bits(ab.current_deployment()), 0.0);
    assert!(!ab.is_enabled());
    ab.enable();
    assert!(ab.is_enabled());
    ab.command(0.5f32.to_bits(), 1500);
    assert_eq!(ab.pulse_width(), 1500);
    assert_eq!(f32::from_bits(ab.current_deployment()), 0.5);
    ab.command(1.0f32.to_bits(), 2500);
    assert_eq!(ab.pulse_width(), AIRBRAKE_OPEN_US);
    ab.retract();
    assert_eq!(ab.pulse_width(), AIRBRAKE_CLOSE_US);
    assert_eq!(ab.current_deployment(), 0);
    ab.disable();
    assert!(!ab.is_enabled());
}

#[test]
fn sv_is_active_low_and_opens_after_delay() {
    let mut sv = SV::new();
    assert!(sv.is_open());
    assert!(!sv.pin_level_high());
    sv.close();
    assert!(!sv.is_open());
    assert!(sv.pin_level_high());
    sv.open(100, 0);
    assert!(!sv.is_open());
    sv.update(99);
    assert!(!sv.is_open());
    sv.update(100);
    assert!(sv.is_open());
    assert!(!sv.pin_level_high());
}

#[test]
fn airbrake_phases_are_distinct() {
    assert_ne!(AirbrakePhase::Pad, AirbrakePhase::Boost);
    assert_ne!(AirbrakePhase::Boost, AirbrakePhase::Coast);
}
