//! BLiMS, the steerable-parafoil guidance: the flight-phase decisions of the
//! controller, and the simulated hardware its closed-loop simulation runs on.
//!
//! The heading control itself (bearings, the PI loop, the motor mapping) is
//! floating point and is run by the caller; what is decided here is which
//! phase the parafoil is in, when the integral is cleared, what each phase
//! steers toward and which time step the controller uses.

use vstd::prelude::*;

verus! {

/// Flight phase; its number is what the logs record.
#[derive(Clone, Copy, Debug, PartialEq, Eq, Structural)]
pub enum Phase {
    /// No GPS lock, or not yet activated: motor at neutral.
    Held,
    /// GPS valid, canopy still stabilising.
    InitialHold,
    /// Above the upwind altitude: steer toward the upwind target.
    Upwind,
    /// Between the neutral and upwind altitudes: steer toward the downwind
    /// target.
    Downwind,
    /// At or below the neutral altitude: hands off.
    Neutral,
}

/// The number a phase is logged as.
pub open spec fn phase_id_spec(p: Phase) -> i8 {
    match p {
        Phase::Held => 0,
        Phase::InitialHold => 1,
        Phase::Upwind => 2,
        Phase::Downwind => 3,
        Phase::Neutral => 4,
    }
}

impl Phase {
    /// The number the phase is logged as.
    pub fn id(self) -> (r: i8)
        ensures
            r == phase_id_spec(self),
    {
        match self {
            Phase::Held => 0,
            Phase::InitialHold => 1,
            Phase::Upwind => 2,
            Phase::Downwind => 3,
            Phase::Neutral => 4,
        }
    }
}

/// BLiMS operating mode: standing by, or guiding the descent.
#[allow(non_camel_case_types)]
#[derive(Clone, Copy, Debug, PartialEq, Eq, Structural)]
pub enum BLIMSMode {
    STANDBY,
    LV,
}

/// The name of a logged phase number, `"?"` for one that is no phase.
pub fn phase_name(phase_id: i8) -> (r: &'static str)
    ensures
        phase_id == 0 ==> r@ == "Held"@,
        phase_id == 1 ==> r@ == "InitialHold"@,
        phase_id == 2 ==> r@ == "Upwind"@,
        phase_id == 3 ==> r@ == "Downwind"@,
        phase_id == 4 ==> r@ == "Neutral"@,
        !(0 <= phase_id <= 4) ==> r@ == "?"@,
{
    match phase_id {
        0 => "Held",
        1 => "InitialHold",
        2 => "Upwind",
        3 => "Downwind",
        4 => "Neutral",
        _ => "?",
    }
}

/// Milliseconds after activation that the canopy is left to stabilise.
pub const INITIAL_HOLD_THRESHOLD: u64 = 0;
/// Longest gap between cycles taken as the control time step; a longer gap,
/// or the first cycle, uses the default step.
pub const MAX_DT_MS: u64 = 200;
/// Most layers a wind profile holds.
pub const MAX_WIND_LAYERS: usize = 20;

/// Where the barometric altitude lies relative to the two phase thresholds
/// (200 ft and 1000 ft AGL); the caller compares the floating-point altitude.
#[derive(Clone, Copy, Debug, PartialEq, Eq, Structural)]
pub enum AltitudeBand {
    /// At or below the neutral altitude.
    Low,
    /// Above the neutral altitude, at or below the upwind altitude.
    Middle,
    /// Above the upwind altitude.
    High,
}

/// Whether the GPS solution may be steered by: flagged valid, with at least
/// a 2D fix.
pub open spec fn gps_valid_spec(gps_state: bool, fix_type: u8) -> bool {
    gps_state && fix_type >= 2
}

/// Whether the GPS solution may be steered by.
pub fn gps_valid(gps_state: bool, fix_type: u8) -> (r: bool)
    ensures
        r == gps_valid_spec(gps_state, fix_type),
{
    gps_state && fix_type >= 2
}

/// The phase for a cycle: held without GPS; otherwise, within the initial
/// hold after activation, held for the canopy; otherwise by altitude band.
pub open spec fn phase_for(gps_ok: bool, since_activation: u64, band: AltitudeBand) -> Phase {
    if !gps_ok {
        Phase::Held
    } else if since_activation < INITIAL_HOLD_THRESHOLD {
        Phase::InitialHold
    } else {
        match band {
            AltitudeBand::Low => Phase::Neutral,
            AltitudeBand::High => Phase::Upwind,
            AltitudeBand::Middle => Phase::Downwind,
        }
    }
}

/// The phase rules: without a usable GPS solution the controller holds,
/// whatever the altitude; with one it holds for the initial period after
/// activation, then steers by altitude band: upwind high, downwind in the
/// middle band, neutral near the ground.
pub proof fn lemma_phase_rules(gps_ok: bool, since_activation: u64, band: AltitudeBand)
    ensures
        !gps_ok ==> phase_for(gps_ok, since_activation, band) == Phase::Held,
        gps_ok && since_activation < INITIAL_HOLD_THRESHOLD ==> phase_for(gps_ok, since_activation, band) == Phase::InitialHold,
        gps_ok && since_activation >= INITIAL_HOLD_THRESHOLD && band == AltitudeBand::High
            ==> phase_for(gps_ok, since_activation, band) == Phase::Upwind,
        gps_ok && since_activation >= INITIAL_HOLD_THRESHOLD && band == AltitudeBand::Middle
            ==> phase_for(gps_ok, since_activation, band) == Phase::Downwind,
        gps_ok && since_activation >= INITIAL_HOLD_THRESHOLD && band == AltitudeBand::Low
            ==> phase_for(gps_ok, since_activation, band) == Phase::Neutral,
        gps_ok ==> phase_for(gps_ok, since_activation, band) != Phase::Held,
{
}

/// What the controller steers toward in a phase.
#[derive(Clone, Copy, Debug, PartialEq, Eq, Structural)]
pub enum Steering {
    /// Motor at neutral, PI terms zero.
    Neutral,
    /// PI control toward the bearing of the upwind target.
    UpwindTarget,
    /// PI control toward the bearing of the downwind target.
    DownwindTarget,
}

/// What each phase steers toward.
pub open spec fn steering_for(p: Phase) -> Steering {
    match p {
        Phase::Upwind => Steering::UpwindTarget,
        Phase::Downwind => Steering::DownwindTarget,
        _ => Steering::Neutral,
    }
}

/// What each phase does: only the upwind phase steers at the upwind target
/// and only the downwind phase at the downwind target; the others leave the
/// motor at neutral. The phases are logged as 0 (held), 1 (initial hold),
/// 2 (upwind), 3 (downwind) and 4 (neutral).
pub proof fn lemma_phase_actions(p: Phase)
    ensures
        (steering_for(p) == Steering::UpwindTarget) <==> p == Phase::Upwind,
        (steering_for(p) == Steering::DownwindTarget) <==> p == Phase::Downwind,
        (steering_for(p) == Steering::Neutral) <==> (p != Phase::Upwind && p != Phase::Downwind),
        phase_id_spec(Phase::Held) == 0,
        phase_id_spec(Phase::InitialHold) == 1,
        phase_id_spec(Phase::Upwind) == 2,
        phase_id_spec(Phase::Downwind) == 3,
        phase_id_spec(Phase::Neutral) == 4,
{
}

/// A GPS solution is steered by only when the receiver reports a state and
/// at least a 2D fix.
pub proof fn lemma_gps_valid_needs_fix(gps_state: bool, fix_type: u8)
    ensures
        !gps_state ==> !gps_valid_spec(gps_state, fix_type),
        fix_type < 2 ==> !gps_valid_spec(gps_state, fix_type),
        gps_state && fix_type >= 2 ==> gps_valid_spec(gps_state, fix_type),
{
}

/// The decisions of one control cycle.
#[derive(Clone, Copy, Debug, PartialEq, Eq, Structural)]
pub struct CycleDecision {
    /// The phase of this cycle.
    pub phase: Phase,
    /// Whether the PI integral is cleared (the phase changed).
    pub reset_integral: bool,
    /// What to steer toward.
    pub steering: Steering,
    /// The time step in milliseconds, or `None` for the default 50 ms step.
    pub dt_ms: Option<u64>,
}

/// The control time step: the time since the previous cycle, unless this is
/// the first cycle (previous time 0) or the gap is over 200 ms.
pub open spec fn dt_for(prev_ms: u64, curr_ms: u64) -> Option<u64> {
    let dt = if curr_ms >= prev_ms { (curr_ms - prev_ms) as u64 } else { 0 };
    if prev_ms == 0 || dt > MAX_DT_MS { None } else { Some(dt) }
}

/// The controller's decision state: when it was first activated, the last
/// phase, and the times of the last two cycles.
pub struct PhaseLogic {
    activation_time_ms: Option<u64>,
    last_phase: Phase,
    curr_time_ms: u64,
    prev_time_ms: u64,
}

impl PhaseLogic {
    /// When the controller was first activated (first cycle with GPS).
    pub closed spec fn activation(&self) -> Option<u64> {
        self.activation_time_ms
    }

    /// The phase of the last cycle.
    pub closed spec fn last(&self) -> Phase {
        self.last_phase
    }

    /// The time of the last cycle.
    pub closed spec fn now(&self) -> u64 {
        self.curr_time_ms
    }

    /// Activation happened no later than the last cycle.
    pub closed spec fn wf(&self) -> bool {
        match self.activation_time_ms {
            Some(t) => t <= self.curr_time_ms,
            None => true,
        }
    }

    /// Not yet activated, held, at time 0.
    pub fn new() -> (r: PhaseLogic)
        ensures
            r.wf(),
            r.activation() is None,
            r.last() == Phase::Held,
            r.now() == 0,
    {
        PhaseLogic { activation_time_ms: None, last_phase: Phase::Held, curr_time_ms: 0, prev_time_ms: 0 }
    }

    /// Decides one control cycle at `now_ms`: the time step from the last
    /// cycle, the phase (activating on the first cycle with valid GPS), and
    /// whether the phase changed.
    pub fn cycle(&mut self, now_ms: u64, gps_state: bool, fix_type: u8, band: AltitudeBand) -> (r: CycleDecision)
        requires
            old(self).wf(),
            old(self).activation() matches Some(t) ==> now_ms >= t,
        ensures
            final(self).wf(),
            final(self).now() == now_ms,
            r.dt_ms == dt_for(old(self).now(), now_ms),
            final(self).activation() == (if gps_valid_spec(gps_state, fix_type) && old(self).activation() is None {
                Some(now_ms)
            } else {
                old(self).activation()
            }),
            r.phase == phase_for(
                gps_valid_spec(gps_state, fix_type),
                (now_ms - final(self).activation().unwrap_or(now_ms)) as u64,
                band,
            ),
            r.reset_integral == (r.phase != old(self).last()),
            !gps_valid_spec(gps_state, fix_type) ==> r.phase == Phase::Held,
            gps_valid_spec(gps_state, fix_type) ==> r.phase != Phase::Held,
            final(self).last() == r.phase,
            r.steering == steering_for(r.phase),
    {
        self.prev_time_ms = self.curr_time_ms;
        self.curr_time_ms = now_ms;
        let dt_ms = if self.curr_time_ms >= self.prev_time_ms { self.curr_time_ms - self.prev_time_ms } else { 0 };
        let dt = if self.prev_time_ms == 0 || dt_ms > MAX_DT_MS { None } else { Some(dt_ms) };

        let phase = if !gps_valid(gps_state, fix_type) {
            Phase::Held
        } else {
            let activation_ms = match self.activation_time_ms {
                Some(t) => t,
                None => {
                    self.activation_time_ms = Some(self.curr_time_ms);
                    self.curr_time_ms
                },
            };
            if self.curr_time_ms - activation_ms < INITIAL_HOLD_THRESHOLD {
                Phase::InitialHold
            } else {
                match band {
                    AltitudeBand::Low => Phase::Neutral,
                    AltitudeBand::High => Phase::Upwind,
                    AltitudeBand::Middle => Phase::Downwind,
                }
            }
        };

        let reset_integral = phase != self.last_phase;
        if reset_integral {
            self.last_phase = phase;
        }
        let steering = match phase {
            Phase::Upwind => Steering::UpwindTarget,
            Phase::Downwind => Steering::DownwindTarget,
            _ => Steering::Neutral,
        };
        CycleDecision { phase, reset_integral, steering, dt_ms: dt }
    }
}

/// A wind profile: wind directions (degrees the wind blows from) at
/// increasing altitudes, as `f32` bit patterns, at most 20 layers.
pub struct WindProfile {
    pub altitudes_m: Vec<u32>,
    pub dirs_deg: Vec<u32>,
}

/// The number of layers kept from two arrays: the shorter, at most 20.
pub open spec fn profile_size(a: nat, d: nat) -> nat {
    let m = if a < d { a } else { d };
    if m < MAX_WIND_LAYERS { m } else { MAX_WIND_LAYERS as nat }
}

impl WindProfile {
    /// No profile: the single surface wind direction is used.
    pub fn new() -> (r: WindProfile)
        ensures
            r.altitudes_m@.len() == 0,
            r.dirs_deg@.len() == 0,
    {
        WindProfile { altitudes_m: Vec::new(), dirs_deg: Vec::new() }
    }

    /// Loads a profile: layers beyond the shorter array, or beyond 20, are
    /// dropped.
    pub fn set_wind_profile(&mut self, altitudes_m: &[u32], directions_deg: &[u32])
        ensures
            final(self).altitudes_m@ == altitudes_m@.take(profile_size(altitudes_m@.len(), directions_deg@.len()) as int),
            final(self).dirs_deg@ == directions_deg@.take(profile_size(altitudes_m@.len(), directions_deg@.len()) as int),
    {
        let mut size = if altitudes_m.len() < directions_deg.len() { altitudes_m.len() } else { directions_deg.len() };
        if size > MAX_WIND_LAYERS {
            size = MAX_WIND_LAYERS;
        }
        let mut a: Vec<u32> = Vec::new();
        let mut d: Vec<u32> = Vec::new();
        let mut i: usize = 0;
        while i < size
            invariant
                i <= size,
                size <= altitudes_m@.len(),
                size <= directions_deg@.len(),
                a@ == altitudes_m@.take(i as int),
                d@ == directions_deg@.take(i as int),
            decreases size - i,
        {
            a.push(altitudes_m[i]);
            d.push(directions_deg[i]);
            i += 1;
            assert(a@ =~= altitudes_m@.take(i as int));
            assert(d@ =~= directions_deg@.take(i as int));
        }
        self.altitudes_m = a;
        self.dirs_deg = d;
    }

    /// Number of layers loaded.
    pub fn size(&self) -> (r: usize)
        ensures
            r == self.altitudes_m@.len(),
    {
        self.altitudes_m.len()
    }
}

// ---------------------------------------------------------------------------
// Simulated hardware
// ---------------------------------------------------------------------------

/// The hardware the closed-loop simulation gives the controller: a clock set
/// from the recorded timestamps, the motor PWM level and enable line, and a
/// single pending alarm.
pub struct SimHardware {
    time_ms: u32,
    pwm_level: u16,
    enable_high: bool,
    alarm: Option<(u32, i64)>,
    next_alarm_id: i64,
    pub alarm_fired: bool,
}

impl SimHardware {
    /// The simulated clock.
    pub closed spec fn time(&self) -> u32 {
        self.time_ms
    }

    /// The PWM level last set.
    pub closed spec fn pwm(&self) -> u16 {
        self.pwm_level
    }

    /// The enable line last set.
    pub closed spec fn enable(&self) -> bool {
        self.enable_high
    }

    /// The pending alarm: when it fires and its id.
    pub closed spec fn pending(&self) -> Option<(u32, i64)> {
        self.alarm
    }

    /// Whether an alarm has fired since the flag was last cleared.
    pub closed spec fn fired(&self) -> bool {
        self.alarm_fired
    }

    /// The id the next alarm gets.
    pub closed spec fn next_id(&self) -> i64 {
        self.next_alarm_id
    }

    /// At time 0, outputs low, no alarm; ids start at 0.
    pub fn new() -> (r: SimHardware)
        ensures
            r.time() == 0,
            r.pwm() == 0,
            !r.enable(),
            r.pending() is None,
            r.next_id() == 0,
            !r.fired(),
    {
        SimHardware { time_ms: 0, pwm_level: 0, enable_high: false, alarm: None, next_alarm_id: 0, alarm_fired: false }
    }

    /// Sets the clock to `t`; a pending alarm whose time has come fires (it
    /// is dropped and `alarm_fired` is set).
    pub fn advance_to_ms(&mut self, t: u32)
        ensures
            final(self).time() == t,
            final(self).pwm() == old(self).pwm(),
            final(self).enable() == old(self).enable(),
            final(self).next_id() == old(self).next_id(),
            match old(self).pending() {
                Some((fire_at, _)) if t >= fire_at => final(self).pending() is None && final(self).fired(),
                _ => final(self).pending() == old(self).pending() && final(self).fired() == old(self).fired(),
            },
    {
        self.time_ms = t;
        if let Some((fire_at, _)) = self.alarm {
            if t >= fire_at {
                self.alarm = None;
                self.alarm_fired = true;
            }
        }
    }

    /// The simulated clock.
    pub fn now_ms(&self) -> (r: u32)
        ensures
            r == self.time(),
    {
        self.time_ms
    }

    /// Sets the motor PWM level (the pin number is not modelled).
    pub fn set_pwm_level(&mut self, _pin: u8, level: u16)
        ensures
            final(self).pwm() == level,
            final(self).time() == old(self).time(),
            final(self).enable() == old(self).enable(),
            final(self).pending() == old(self).pending(),
            final(self).next_id() == old(self).next_id(),
            final(self).fired() == old(self).fired(),
    {
        self.pwm_level = level;
    }

    /// Sets the enable line (the pin number is not modelled).
    pub fn set_enable_pin(&mut self, _pin: u8, high: bool)
        ensures
            final(self).enable() == high,
            final(self).time() == old(self).time(),
            final(self).pwm() == old(self).pwm(),
            final(self).pending() == old(self).pending(),
            final(self).next_id() == old(self).next_id(),
            final(self).fired() == old(self).fired(),
    {
        self.enable_high = high;
    }

    /// Schedules the alarm `delay_ms` from now (saturating at the end of the
    /// clock), replacing any pending one; returns its id.
    pub fn schedule_alarm_ms(&mut self, delay_ms: u32) -> (id: i64)
        requires
            old(self).next_id() < i64::MAX,
        ensures
            id == old(self).next_id(),
            final(self).next_id() == old(self).next_id() + 1,
            final(self).pending() == Some((
                (if old(self).time() + delay_ms <= u32::MAX { old(self).time() + delay_ms } else { u32::MAX as int }) as u32,
                id,
            )),
            final(self).time() == old(self).time(),
            final(self).pwm() == old(self).pwm(),
            final(self).enable() == old(self).enable(),
            final(self).fired() == old(self).fired(),
    {
        let id = self.next_alarm_id;
        let fire_at = self.time_ms.saturating_add(delay_ms);
        self.alarm = Some((fire_at, id));
        self.next_alarm_id = self.next_alarm_id + 1;
        id
    }

    /// Cancels the pending alarm if it has the given id, and clears the
    /// fired flag in any case.
    pub fn cancel_alarm(&mut self, alarm_id: i64)
        ensures
            !final(self).fired(),
            final(self).pending() == (match old(self).pending() {
                Some((_, id)) if id == alarm_id => None,
                p => p,
            }),
            final(self).time() == old(self).time(),
            final(self).pwm() == old(self).pwm(),
            final(self).enable() == old(self).enable(),
            final(self).next_id() == old(self).next_id(),
    {
        if let Some((_, id)) = self.alarm {
            if id == alarm_id {
                self.alarm = None;
            }
        }
        self.alarm_fired = false;
    }
}

// ---------------------------------------------------------------------------
// CSV columns
// ---------------------------------------------------------------------------

/// Whether a byte is ASCII white space.
pub open spec fn is_space(b: u8) -> bool {
    b == 32 || b == 9 || b == 10 || b == 13 || b == 12 || b == 11
}

/// How many white-space bytes start `s`.
pub open spec fn lead_spaces(s: Seq<u8>) -> nat
    decreases s.len(),
{
    if s.len() > 0 && is_space(s[0]) { 1 + lead_spaces(s.drop_first()) } else { 0 }
}

/// How many white-space bytes end `s`.
pub open spec fn trail_spaces(s: Seq<u8>) -> nat
    decreases s.len(),
{
    if s.len() > 0 && is_space(s.last()) { 1 + trail_spaces(s.drop_last()) } else { 0 }
}

/// `s` without its leading and trailing white space.
pub open spec fn trim(s: Seq<u8>) -> Seq<u8> {
    let t = s.skip(lead_spaces(s) as int);
    t.take(t.len() - trail_spaces(t))
}

proof fn lemma_lead_spaces(s: Seq<u8>, i: int)
    requires
        0 <= i <= s.len(),
        forall|k: int| 0 <= k < i ==> is_space(s[k]),
        i == s.len() || !is_space(s[i]),
    ensures
        lead_spaces(s) == i,
    decreases i,
{
    if i > 0 {
        lemma_lead_spaces(s.drop_first(), i - 1);
    }
}

proof fn lemma_trail_spaces(s: Seq<u8>, i: int)
    requires
        0 <= i <= s.len(),
        forall|k: int| s.len() - i <= k < s.len() ==> is_space(s[k]),
        i == s.len() || !is_space(s[s.len() - 1 - i]),
    ensures
        trail_spaces(s) == i,
    decreases i,
{
    if i > 0 {
        lemma_trail_spaces(s.drop_last(), i - 1);
    }
}

fn is_space_byte(b: u8) -> (r: bool)
    ensures
        r == is_space(b),
{
    b == 32 || b == 9 || b == 10 || b == 13 || b == 12 || b == 11
}

/// Whether `field`, trimmed of white space, is `name`.
pub fn trimmed_eq(field: &[u8], name: &[u8]) -> (r: bool)
    ensures
        r == (trim(field@) == name@),
{
    let n = field.len();
    let mut lo: usize = 0;
    while lo < n && is_space_byte(field[lo])
        invariant
            lo <= n,
            n == field@.len(),
            forall|k: int| 0 <= k < lo ==> is_space(field@[k]),
        decreases n - lo,
    {
        lo += 1;
    }
    proof {
        lemma_lead_spaces(field@, lo as int);
    }
    let ghost t = field@.skip(lo as int);
    let mut hi: usize = n;
    while hi > lo && is_space_byte(field[hi - 1])
        invariant
            lo <= hi <= n,
            n == field@.len(),
            forall|k: int| hi <= k < n ==> is_space(field@[k]),
        decreases hi - lo,
    {
        hi -= 1;
    }
    proof {
        assert forall|k: int| t.len() - (n - hi) <= k < t.len() implies is_space(t[k]) by {
            assert(t[k] == field@[lo + k]);
        }
        if n - hi != t.len() {
            assert(t[t.len() - 1 - (n - hi)] == field@[hi - 1]);
        }
        lemma_trail_spaces(t, (n - hi) as int);
        assert(trim(field@) =~= field@.subrange(lo as int, hi as int));
    }
    if hi - lo != name.len() {
        return false;
    }
    let mut k: usize = 0;
    while k < name.len()
        invariant
            k <= name@.len(),
            hi - lo == name@.len(),
            lo <= hi <= n,
            n == field@.len(),
            trim(field@) == field@.subrange(lo as int, hi as int),
            forall|j: int| 0 <= j < k ==> field@[lo + j] == name@[j],
        decreases name@.len() - k,
    {
        if field[lo + k] != name[k] {
            assert(field@.subrange(lo as int, hi as int)[k as int] != name@[k as int]);
            return false;
        }
        k += 1;
    }
    assert(field@.subrange(lo as int, hi as int) =~= name@);
    true
}

/// The index of the first header field that, trimmed, is `name`.
pub fn find_col(header: &[Vec<u8>], name: &[u8]) -> (r: Option<usize>)
    ensures
        match r {
            Some(i) => i < header@.len() && trim(header@[i as int]@) == name@
                && forall|j: int| 0 <= j < i ==> trim(header@[j]@) != name@,
            None => forall|j: int| 0 <= j < header@.len() ==> trim(header@[j]@) != name@,
        },
{
    let mut i: usize = 0;
    while i < header.len()
        invariant
            i <= header@.len(),
            forall|j: int| 0 <= j < i ==> trim(header@[j]@) != name@,
        decreases header@.len() - i,
    {
        if trimmed_eq(header[i].as_slice(), name) {
            return Some(i);
        }
        i += 1;
    }
    None
}

/// The index of the column named `name` in a CSV header; the column must be
/// there (a missing column stops the simulation).
pub fn col(header: &[Vec<u8>], name: &[u8]) -> (r: usize)
    requires
        exists|j: int| 0 <= j < header@.len() && trim(header@[j]@) == name@,
    ensures
        r < header@.len(),
        trim(header@[r as int]@) == name@,
        forall|j: int| 0 <= j < r ==> trim(header@[j]@) != name@,
{
    match find_col(header, name) {
        Some(i) => i,
        None => {
            assert(false);
            0
        },
    }
}

} // verus!
