//! The actuators' timing and output state: the separation charges (SSA), the
//! arming buzzer, the main valve servo (MAV), the airbrake motor command and
//! the solenoid vent valve (SV).
//!
//! Time is the caller's clock in milliseconds since boot; each `update` is
//! handed the current time. The caller drives the pins and PWM outputs to
//! the levels the state here records.

use vstd::prelude::*;

verus! {

/// A parachute charge.
#[derive(Clone, Copy, Debug, PartialEq, Eq, Structural)]
pub enum Chute {
    Drogue,
    Main,
}

// ---------------------------------------------------------------------------
// SSA
// ---------------------------------------------------------------------------

/// The two separation charges: each is fired (pin high) for a set duration.
pub struct Ssa {
    pub drogue_high: bool,
    pub main_high: bool,
    pub drogue_off_time: Option<u64>,
    pub main_off_time: Option<u64>,
}

impl Ssa {
    /// Both charges off.
    pub fn new() -> (r: Ssa)
        ensures
            !r.drogue_high && !r.main_high,
            r.drogue_off_time is None && r.main_off_time is None,
    {
        Ssa { drogue_high: false, main_high: false, drogue_off_time: None, main_off_time: None }
    }

    /// Fires `chute` now, until `duration_ms` from now; the other charge is
    /// left as it is.
    pub fn trigger(&mut self, chute: Chute, now_ms: u64, duration_ms: u64)
        requires
            now_ms + duration_ms <= u64::MAX,
        ensures
            chute == Chute::Drogue ==> {
                &&& final(self).drogue_high
                &&& final(self).drogue_off_time == Some((now_ms + duration_ms) as u64)
                &&& final(self).main_high == old(self).main_high
                &&& final(self).main_off_time == old(self).main_off_time
            },
            chute == Chute::Main ==> {
                &&& final(self).main_high
                &&& final(self).main_off_time == Some((now_ms + duration_ms) as u64)
                &&& final(self).drogue_high == old(self).drogue_high
                &&& final(self).drogue_off_time == old(self).drogue_off_time
            },
    {
        let end = now_ms + duration_ms;
        match chute {
            Chute::Drogue => {
                self.drogue_high = true;
                self.drogue_off_time = Some(end);
            },
            Chute::Main => {
                self.main_high = true;
                self.main_off_time = Some(end);
            },
        }
    }

    /// Turns off each charge whose time has come; one still in its pulse is
    /// left firing.
    pub fn update(&mut self, now_ms: u64)
        ensures
            match old(self).drogue_off_time {
                Some(t) if now_ms >= t => !final(self).drogue_high && final(self).drogue_off_time is None,
                _ => final(self).drogue_high == old(self).drogue_high && final(self).drogue_off_time == old(self).drogue_off_time,
            },
            match old(self).main_off_time {
                Some(t) if now_ms >= t => !final(self).main_high && final(self).main_off_time is None,
                _ => final(self).main_high == old(self).main_high && final(self).main_off_time == old(self).main_off_time,
            },
    {
        if let Some(t) = self.drogue_off_time {
            if now_ms >= t {
                self.drogue_high = false;
                self.drogue_off_time = None;
            }
        }
        if let Some(t) = self.main_off_time {
            if now_ms >= t {
                self.main_high = false;
                self.main_off_time = None;
            }
        }
    }
}

// ---------------------------------------------------------------------------
// Buzzer
// ---------------------------------------------------------------------------

/// Length of each beep and of each gap between beeps.
pub const BEEP_MS: u64 = 100;
/// PWM counter top of the buzzer output (4 kHz).
pub const BUZZER_TOP: u16 = 6249;

/// What one toggle does to the beep count and the tone: a sounding beep
/// ends and is counted off; in a gap, the next beep starts if one remains.
pub open spec fn toggle_state(remaining: nat, sounding: bool) -> (nat, bool) {
    if sounding {
        ((remaining - 1) as nat, false)
    } else if remaining > 0 {
        (remaining, true)
    } else {
        (0, false)
    }
}

/// The beep count and tone after `k` toggles.
pub open spec fn toggles(remaining: nat, sounding: bool, k: nat) -> (nat, bool)
    decreases k,
{
    if k == 0 {
        (remaining, sounding)
    } else {
        let (r, on) = toggles(remaining, sounding, (k - 1) as nat);
        toggle_state(r, on)
    }
}

/// How many of the first `k` toggles start a beep.
pub open spec fn beeps_started(remaining: nat, sounding: bool, k: nat) -> nat
    decreases k,
{
    if k == 0 {
        0
    } else {
        let (r, on) = toggles(remaining, sounding, (k - 1) as nat);
        beeps_started(remaining, sounding, (k - 1) as nat) + (if !on && r > 0 { 1nat } else { 0nat })
    }
}

/// The arming buzzer: a sequence of beeps, 100 ms on and 100 ms off.
pub struct Buzzer {
    remaining_beeps: u32,
    next_toggle_time: Option<u64>,
    is_on: bool,
}

impl Buzzer {
    /// Beeps still to finish (the one sounding counts).
    pub closed spec fn remaining(&self) -> u32 {
        self.remaining_beeps
    }

    /// When the tone next turns on or off.
    pub closed spec fn next_toggle(&self) -> Option<u64> {
        self.next_toggle_time
    }

    /// Whether the tone is sounding.
    pub closed spec fn sounding(&self) -> bool {
        self.is_on
    }

    /// A sounding tone is a beep still counted, and a toggle is pending
    /// exactly while beeps remain.
    pub closed spec fn wf(&self) -> bool {
        &&& self.is_on ==> self.remaining_beeps > 0
        &&& (self.next_toggle_time is Some <==> self.remaining_beeps > 0)
    }

    /// Silent, with no beeps pending.
    pub fn new() -> (r: Buzzer)
        ensures
            r.wf(),
            r.remaining() == 0,
            !r.sounding(),
            r.next_toggle() is None,
    {
        Buzzer { remaining_beeps: 0, next_toggle_time: None, is_on: false }
    }

    /// Whether the tone is sounding (50% duty) rather than off (0%).
    pub fn is_on(&self) -> (r: bool)
        ensures
            r == self.sounding(),
    {
        self.is_on
    }

    /// Beeps still to finish.
    pub fn remaining_beeps(&self) -> (r: u32)
        ensures
            r == self.remaining(),
    {
        self.remaining_beeps
    }

    /// Requests `num` beeps, starting one now; ignored while a sequence is
    /// in progress. Zero beeps is a request for nothing: the buzzer stays as
    /// it is.
    pub fn buzz(&mut self, num: u32, now_ms: u64)
        requires
            old(self).wf(),
            old(self).remaining() == 0 && num > 0 ==> now_ms + BEEP_MS <= u64::MAX,
        ensures
            final(self).wf(),
            old(self).remaining() == 0 && num > 0 ==> {
                &&& final(self).remaining() == num
                &&& final(self).sounding()
                &&& final(self).next_toggle() == Some((now_ms + BEEP_MS) as u64)
            },
            old(self).remaining() != 0 || num == 0 ==> *final(self) == *old(self),
    {
        if self.remaining_beeps == 0 && num > 0 {
            self.remaining_beeps = num;
            self.is_on = true;
            self.next_toggle_time = Some(now_ms + BEEP_MS);
        }
    }

    /// Advances the beep pattern: at the toggle time, a sounding beep ends
    /// (and the next gap starts if beeps remain), and at the end of a gap the
    /// next beep starts.
    pub fn update(&mut self, now_ms: u64)
        requires
            old(self).wf(),
            now_ms + BEEP_MS <= u64::MAX,
        ensures
            final(self).wf(),
            match old(self).next_toggle() {
                Some(t) if now_ms >= t => {
                    &&& (final(self).remaining() as nat, final(self).sounding())
                        == toggle_state(old(self).remaining() as nat, old(self).sounding())
                    &&& final(self).next_toggle() == (if final(self).remaining() > 0 {
                        Some((now_ms + BEEP_MS) as u64)
                    } else {
                        None
                    })
                },
                _ => *final(self) == *old(self),
            },
    {
        if let Some(t) = self.next_toggle_time {
            if now_ms >= t {
                if self.is_on {
                    self.is_on = false;
                    self.remaining_beeps = self.remaining_beeps - 1;
                    if self.remaining_beeps > 0 {
                        self.next_toggle_time = Some(now_ms + BEEP_MS);
                    } else {
                        self.next_toggle_time = None;
                    }
                } else {
                    if self.remaining_beeps > 0 {
                        self.is_on = true;
                        self.next_toggle_time = Some(now_ms + BEEP_MS);
                    } else {
                        self.next_toggle_time = None;
                    }
                }
            }
        }
    }
}

/// A requested sequence of `n` beeps runs to its end: starting from the
/// first beep sounding, each toggle alternates end-of-beep and start-of-beep,
/// a toggle stays pending until the last beep ends, which happens at the
/// toggle numbered 2n-1; by then n beeps have sounded (the first one and
/// n-1 started by toggles).
pub proof fn lemma_buzz_sequence(n: nat)
    requires
        n > 0,
    ensures
        toggles(n, true, (2 * n - 1) as nat) == (0nat, false),
        beeps_started(n, true, (2 * n - 1) as nat) + 1 == n,
        forall|k: nat| k < 2 * n - 1 ==> (#[trigger] toggles(n, true, k)).0 > 0,
{
    assert forall|k: nat| k < 2 * n - 1 implies (#[trigger] toggles(n, true, k)).0 > 0 by {
        let j = k / 2;
        lemma_buzz_pairs(n, j);
        if k % 2 == 0 {
            assert(k == 2 * j);
        } else {
            assert(k == 2 * j + 1);
        }
    }
    lemma_buzz_pairs(n, (n - 1) as nat);
}

proof fn lemma_buzz_pairs(n: nat, j: nat)
    requires
        j < n,
    ensures
        toggles(n, true, 2 * j) == ((n - j) as nat, true),
        beeps_started(n, true, 2 * j) == j,
        toggles(n, true, 2 * j + 1) == ((n - j - 1) as nat, false),
        beeps_started(n, true, 2 * j + 1) == j,
    decreases j,
{
    if j > 0 {
        lemma_buzz_pairs(n, (j - 1) as nat);
        assert(2 * j == (2 * (j - 1) + 1) + 1);
        assert(((2 * j) - 1) as nat == 2 * (j - 1) + 1);
    }
}

// ---------------------------------------------------------------------------
// MAV servo
// ---------------------------------------------------------------------------

/// Servo frame period (330 Hz).
pub const MAV_PERIOD_US: u16 = 3030;
/// Shortest servo pulse.
pub const MAV_MIN_US: u16 = 800;
/// Longest servo pulse.
pub const MAV_MAX_US: u16 = 2200;
/// Pulse that holds the valve open.
pub const MAV_OPEN_US: u16 = 2015;
/// Pulse that holds the valve closed.
pub const MAV_CLOSE_US: u16 = 995;

/// `x` clamped to `lo..=hi`.
pub open spec fn clamp_u16(x: u16, lo: u16, hi: u16) -> u16 {
    if x < lo { lo } else if x > hi { hi } else { x }
}

fn clamp(x: u16, lo: u16, hi: u16) -> (r: u16)
    requires
        lo <= hi,
    ensures
        r == clamp_u16(x, lo, hi),
{
    if x < lo { lo } else if x > hi { hi } else { x }
}

/// The main valve servo: its pulse width, whether it is open, and when a
/// timed opening ends.
pub struct Mav {
    pulse_us: u16,
    open_deadline: Option<u64>,
    state_open: bool,
}

impl Mav {
    /// The commanded pulse width, in microseconds of each 3030 µs frame.
    pub closed spec fn pulse(&self) -> u16 {
        self.pulse_us
    }

    /// When a timed opening ends.
    pub closed spec fn deadline(&self) -> Option<u64> {
        self.open_deadline
    }

    /// Whether the valve is commanded open.
    pub closed spec fn open_spec(&self) -> bool {
        self.state_open
    }

    /// The servo, closed.
    pub fn new() -> (r: Mav)
        ensures
            r.pulse() == MAV_CLOSE_US,
            !r.open_spec(),
            r.deadline() is None,
    {
        Mav { pulse_us: MAV_CLOSE_US, open_deadline: None, state_open: false }
    }

    /// Sets the pulse width, clamped to 800..=2200 µs.
    pub fn set_pulse_width(&mut self, pulse_us: u16)
        ensures
            final(self).pulse() == clamp_u16(pulse_us, MAV_MIN_US, MAV_MAX_US),
            final(self).open_spec() == old(self).open_spec(),
            final(self).deadline() == old(self).deadline(),
    {
        self.pulse_us = clamp(pulse_us, MAV_MIN_US, MAV_MAX_US);
    }

    /// The pulse width currently commanded.
    pub fn pulse_width(&self) -> (r: u16)
        ensures
            r == self.pulse(),
    {
        self.pulse_us
    }

    /// Opens the valve; with a non-zero duration it closes again that many
    /// milliseconds from now, otherwise it stays open.
    pub fn open(&mut self, duration_ms: u64, now_ms: u64)
        requires
            now_ms + duration_ms <= u64::MAX,
        ensures
            final(self).pulse() == MAV_OPEN_US,
            final(self).open_spec(),
            final(self).deadline() == (if duration_ms > 0 { Some((now_ms + duration_ms) as u64) } else { None }),
    {
        self.set_pulse_width(MAV_OPEN_US);
        self.state_open = true;
        if duration_ms > 0 {
            self.open_deadline = Some(now_ms + duration_ms);
        } else {
            self.open_deadline = None;
        }
    }

    /// Closes the valve and drops any timed opening.
    pub fn close(&mut self)
        ensures
            final(self).pulse() == MAV_CLOSE_US,
            !final(self).open_spec(),
            final(self).deadline() is None,
    {
        self.set_pulse_width(MAV_CLOSE_US);
        self.state_open = false;
        self.open_deadline = None;
    }

    /// Closes the valve when a timed opening has run out.
    pub fn update(&mut self, now_ms: u64)
        ensures
            match old(self).deadline() {
                Some(d) if now_ms >= d => {
                    &&& final(self).pulse() == MAV_CLOSE_US
                    &&& !final(self).open_spec()
                    &&& final(self).deadline() is None
                },
                _ => *final(self) == *old(self),
            },
    {
        if let Some(d) = self.open_deadline {
            if now_ms >= d {
                self.close();
            }
        }
    }

    /// Whether the valve is commanded open.
    pub fn is_open(&self) -> (r: bool)
        ensures
            r == self.open_spec(),
    {
        self.state_open
    }
}

// ---------------------------------------------------------------------------
// Airbrake motor command
// ---------------------------------------------------------------------------

/// RC PWM frame period (50 Hz).
pub const AIRBRAKE_PERIOD_US: u16 = 20000;
/// Pulse that fully retracts the airbrakes.
pub const AIRBRAKE_CLOSE_US: u16 = 1000;
/// Pulse that fully deploys the airbrakes.
pub const AIRBRAKE_OPEN_US: u16 = 2000;

/// The airbrake motor controller's command: its enable line, the RC pulse
/// width, and the deployment last commanded (an `f32` bit pattern, 0.0 to
/// 1.0).
pub struct AirbrakeActuator {
    enabled: bool,
    pulse_us: u16,
    deployment_bits: u32,
}

impl AirbrakeActuator {
    /// Whether the motor controller is enabled.
    pub closed spec fn enabled_spec(&self) -> bool {
        self.enabled
    }

    /// The commanded pulse width.
    pub closed spec fn pulse(&self) -> u16 {
        self.pulse_us
    }

    /// The last commanded deployment (bit pattern).
    pub closed spec fn deployment(&self) -> u32 {
        self.deployment_bits
    }

    /// The actuator, retracted and disabled.
    pub fn new() -> (r: AirbrakeActuator)
        ensures
            !r.enabled_spec(),
            r.pulse() == AIRBRAKE_CLOSE_US,
            r.deployment() == 0,
    {
        let mut a = AirbrakeActuator { enabled: false, pulse_us: AIRBRAKE_CLOSE_US, deployment_bits: 0 };
        a.retract();
        a
    }

    /// Enables the motor controller.
    pub fn enable(&mut self)
        ensures
            final(self).enabled_spec(),
            final(self).pulse() == old(self).pulse(),
            final(self).deployment() == old(self).deployment(),
    {
        self.enabled = true;
    }

    /// Disables the motor controller.
    pub fn disable(&mut self)
        ensures
            !final(self).enabled_spec(),
            final(self).pulse() == old(self).pulse(),
            final(self).deployment() == old(self).deployment(),
    {
        self.enabled = false;
    }

    /// Records a deployment command: its level and the pulse width it maps
    /// to, clamped to 1000..=2000 µs.
    pub fn command(&mut self, deployment_bits: u32, pulse_us: u16)
        ensures
            final(self).deployment() == deployment_bits,
            final(self).pulse() == clamp_u16(pulse_us, AIRBRAKE_CLOSE_US, AIRBRAKE_OPEN_US),
            final(self).enabled_spec() == old(self).enabled_spec(),
    {
        self.deployment_bits = deployment_bits;
        self.pulse_us = clamp(pulse_us, AIRBRAKE_CLOSE_US, AIRBRAKE_OPEN_US);
    }

    /// Fully retracts the airbrakes: deployment 0.0, a 1000 µs pulse.
    pub fn retract(&mut self)
        ensures
            final(self).deployment() == 0,
            final(self).pulse() == AIRBRAKE_CLOSE_US,
            final(self).enabled_spec() == old(self).enabled_spec(),
    {
        self.command(0, AIRBRAKE_CLOSE_US);
    }

    /// The last commanded deployment (bit pattern).
    pub fn current_deployment(&self) -> (r: u32)
        ensures
            r == self.deployment(),
    {
        self.deployment_bits
    }

    /// The commanded pulse width.
    pub fn pulse_width(&self) -> (r: u16)
        ensures
            r == self.pulse(),
    {
        self.pulse_us
    }

    /// Whether the motor controller is enabled.
    pub fn is_enabled(&self) -> (r: bool)
        ensures
            r == self.enabled_spec(),
    {
        self.enabled
    }
}

// ---------------------------------------------------------------------------
// SV
// ---------------------------------------------------------------------------

/// The solenoid vent valve, driven active low: the pin low opens it. An
/// opening may be delayed.
pub struct SV {
    pin_high: bool,
    open_delay: Option<u64>,
    state_open: bool,
}

impl SV {
    /// The pin level (high closes the valve).
    pub closed spec fn pin_high_spec(&self) -> bool {
        self.pin_high
    }

    /// When a delayed opening happens.
    pub closed spec fn pending_open(&self) -> Option<u64> {
        self.open_delay
    }

    /// Whether the valve is open.
    pub closed spec fn open_spec(&self) -> bool {
        self.state_open
    }

    /// The valve, opened at once.
    pub fn new() -> (r: SV)
        ensures
            !r.pin_high_spec(),
            r.open_spec(),
            r.pending_open() is None,
    {
        let mut sv = SV { pin_high: true, open_delay: None, state_open: false };
        sv.open(0, 0);
        sv
    }

    /// Opens the valve now, or, with a non-zero delay, that many
    /// milliseconds from now (the valve keeps its state until then).
    pub fn open(&mut self, delay_ms: u64, now_ms: u64)
        requires
            now_ms + delay_ms <= u64::MAX,
        ensures
            delay_ms > 0 ==> {
                &&& final(self).pending_open() == Some((now_ms + delay_ms) as u64)
                &&& final(self).pin_high_spec() == old(self).pin_high_spec()
                &&& final(self).open_spec() == old(self).open_spec()
            },
            delay_ms == 0 ==> {
                &&& !final(self).pin_high_spec()
                &&& final(self).open_spec()
                &&& final(self).pending_open() is None
            },
    {
        if delay_ms > 0 {
            self.open_delay = Some(now_ms + delay_ms);
        } else {
            self.pin_high = false;
            self.state_open = true;
            self.open_delay = None;
        }
    }

    /// Closes the valve now and drops a pending opening.
    pub fn close(&mut self)
        ensures
            final(self).pin_high_spec(),
            !final(self).open_spec(),
            final(self).pending_open() is None,
    {
        self.pin_high = true;
        self.state_open = false;
        self.open_delay = None;
    }

    /// Carries out a delayed opening whose time has come.
    pub fn update(&mut self, now_ms: u64)
        ensures
            match old(self).pending_open() {
                Some(t) if now_ms >= t => {
                    &&& !final(self).pin_high_spec()
                    &&& final(self).open_spec()
                    &&& final(self).pending_open() is None
                },
                _ => *final(self) == *old(self),
            },
    {
        if let Some(t) = self.open_delay {
            if now_ms >= t {
                self.pin_high = false;
                self.state_open = true;
                self.open_delay = None;
            }
        }
    }

    /// Whether the valve is open.
    pub fn is_open(&self) -> (r: bool)
        ensures
            r == self.open_spec(),
    {
        self.state_open
    }

    /// The pin level to drive (high closes the valve).
    pub fn pin_level_high(&self) -> (r: bool)
        ensures
            r == self.pin_high_spec(),
    {
        self.pin_high
    }
}

} // verus!
