//! Decoding a binary dump of the flash data log on the host.
//!
//! The log is a run of records, each a tag byte and a fixed-size payload:
//! `0xFA` and a 92-byte high-rate record, or `0xFB` and a 193-byte packet.
//! Erased flash (0xFF) ends the log. The dump arrives over serial, preceded
//! by a text line holding the begin marker and followed by a line holding the
//! end marker.

use vstd::prelude::*;
use crate::bytes::{find_window, window_at, read_u32, u32_of};
use crate::packet::{
    Packet, FastRecord, FAST_RECORD_SIZE, PACKET_SIZE, FAST_RECORD_TAG, FULL_RECORD_TAG,
    fast_record_bytes, packet_bytes,
};

verus! {

/// `BEGIN FLASH BINARY DUMP`: the text that precedes the binary dump.
pub open spec fn begin_marker_spec() -> Seq<u8> {
    seq![66u8, 69u8, 71u8, 73u8, 78u8, 32u8, 70u8, 76u8, 65u8, 83u8, 72u8, 32u8, 66u8, 73u8, 78u8, 65u8, 82u8, 89u8, 32u8, 68u8, 85u8, 77u8, 80u8]
}

/// `END FLASH BINARY DUMP`: the text that follows the binary dump.
pub open spec fn end_marker_spec() -> Seq<u8> {
    seq![69u8, 78u8, 68u8, 32u8, 70u8, 76u8, 65u8, 83u8, 72u8, 32u8, 66u8, 73u8, 78u8, 65u8, 82u8, 89u8, 32u8, 68u8, 85u8, 77u8, 80u8]
}

/// The begin marker's bytes.
pub fn begin_marker() -> (r: Vec<u8>)
    ensures
        r@ == begin_marker_spec(),
{
    let r = vec![66u8, 69u8, 71u8, 73u8, 78u8, 32u8, 70u8, 76u8, 65u8, 83u8, 72u8, 32u8, 66u8, 73u8, 78u8, 65u8, 82u8, 89u8, 32u8, 68u8, 85u8, 77u8, 80u8];
    assert(r@ =~= begin_marker_spec());
    r
}

/// The end marker's bytes.
pub fn end_marker() -> (r: Vec<u8>)
    ensures
        r@ == end_marker_spec(),
{
    let r = vec![69u8, 78u8, 68u8, 32u8, 70u8, 76u8, 65u8, 83u8, 72u8, 32u8, 66u8, 73u8, 78u8, 65u8, 82u8, 89u8, 32u8, 68u8, 85u8, 77u8, 80u8];
    assert(r@ =~= end_marker_spec());
    r
}

/// Reads a little-endian `u32` at `off`.
pub fn u32le(b: &[u8], off: usize) -> (r: u32)
    requires
        off + 4 <= b@.len(),
    ensures
        r == u32_of(b@.subrange(off as int, off + 4)),
{
    read_u32(b, off)
}

/// Reads a little-endian `i32` at `off`.
pub fn i32le(b: &[u8], off: usize) -> (r: i32)
    requires
        off + 4 <= b@.len(),
    ensures
        r == u32_of(b@.subrange(off as int, off + 4)) as i32,
{
    read_u32(b, off) as i32
}

// ---------------------------------------------------------------------------
// Walking the log
// ---------------------------------------------------------------------------

/// Which kind of record a log entry is.
#[derive(Clone, Copy, Debug, PartialEq, Eq, Structural)]
pub enum RecordKind {
    /// A high-rate record (tag `0xFA`).
    Fast,
    /// A full packet (tag `0xFB`).
    Full,
}

/// A decoded log record: its kind and its payload.
pub struct LogRecord {
    pub kind: RecordKind,
    pub payload: Vec<u8>,
}

/// Payload size of each kind of record.
pub open spec fn payload_size(kind: RecordKind) -> nat {
    match kind {
        RecordKind::Fast => 92,
        RecordKind::Full => 193,
    }
}

/// What a walk over the log yields: the records in order, and how many bytes
/// that start no record were stepped over.
pub struct LogWalk {
    pub records: Seq<(RecordKind, Seq<u8>)>,
    pub skipped: nat,
}

/// The walk over the log `s`: records are taken one after another; a byte
/// that is no tag is stepped over; an erased byte (0xFF), the end of the data
/// or a record cut short by the end ends the walk.
pub open spec fn walk_log(s: Seq<u8>) -> LogWalk
    decreases s.len(),
{
    if s.len() == 0 || s[0] == 0xFF {
        LogWalk { records: Seq::empty(), skipped: 0 }
    } else if s[0] == FAST_RECORD_TAG {
        if s.len() < 93 {
            LogWalk { records: Seq::empty(), skipped: 0 }
        } else {
            let rest = walk_log(s.skip(93));
            LogWalk { records: seq![(RecordKind::Fast, s.subrange(1, 93))] + rest.records, skipped: rest.skipped }
        }
    } else if s[0] == FULL_RECORD_TAG {
        if s.len() < 194 {
            LogWalk { records: Seq::empty(), skipped: 0 }
        } else {
            let rest = walk_log(s.skip(194));
            LogWalk { records: seq![(RecordKind::Full, s.subrange(1, 194))] + rest.records, skipped: rest.skipped }
        }
    } else {
        let rest = walk_log(s.skip(1));
        LogWalk { records: rest.records, skipped: rest.skipped + 1 }
    }
}

/// How many of `records` are of the given kind.
pub open spec fn count_kind(records: Seq<(RecordKind, Seq<u8>)>, kind: RecordKind) -> nat
    decreases records.len(),
{
    if records.len() == 0 {
        0
    } else {
        count_kind(records.drop_last(), kind) + (if records.last().0 == kind { 1nat } else { 0nat })
    }
}

/// What a decoded record stands for.
pub open spec fn record_view(r: LogRecord) -> (RecordKind, Seq<u8>) {
    (r.kind, r.payload@)
}

/// A decoded log: the records, and the counts the dump tool reports.
pub struct DecodedLog {
    pub records: Vec<LogRecord>,
    pub fast_count: usize,
    pub full_count: usize,
    pub skipped: usize,
}

proof fn lemma_count_kind_push(records: Seq<(RecordKind, Seq<u8>)>, r: (RecordKind, Seq<u8>), kind: RecordKind)
    ensures
        count_kind(records.push(r), kind) == count_kind(records, kind) + (if r.0 == kind { 1nat } else { 0nat }),
{
    assert(records.push(r).drop_last() =~= records);
}

proof fn lemma_count_kind_bound(records: Seq<(RecordKind, Seq<u8>)>, kind: RecordKind)
    ensures
        count_kind(records, kind) <= records.len(),
    decreases records.len(),
{
    if records.len() > 0 {
        lemma_count_kind_bound(records.drop_last(), kind);
    }
}

fn copy_range(buf: &[u8], start: usize, end: usize) -> (r: Vec<u8>)
    requires
        start <= end <= buf@.len(),
    ensures
        r@ == buf@.subrange(start as int, end as int),
{
    let mut r: Vec<u8> = Vec::new();
    let mut i = start;
    while i < end
        invariant
            start <= i <= end,
            end <= buf@.len(),
            r@ == buf@.subrange(start as int, i as int),
        decreases end - i,
    {
        r.push(buf[i]);
        i += 1;
        assert(r@ =~= buf@.subrange(start as int, i as int));
    }
    r
}

/// Decodes a raw dump of the data log into its records, counting each kind
/// and the bytes stepped over.
pub fn decode_binary(buf: &[u8]) -> (r: DecodedLog)
    ensures
        r.records@.map_values(|x: LogRecord| record_view(x)) == walk_log(buf@).records,
        r.skipped == walk_log(buf@).skipped,
        r.fast_count == count_kind(walk_log(buf@).records, RecordKind::Fast),
        r.full_count == count_kind(walk_log(buf@).records, RecordKind::Full),
        forall|i: int| 0 <= i < r.records@.len() ==> (#[trigger] r.records@[i]).payload@.len() == payload_size(r.records@[i].kind),
        r.records@.len() == r.fast_count + r.full_count,
        93 * r.fast_count + 194 * r.full_count + r.skipped <= buf@.len(),
{
    let n = buf.len();
    let mut records: Vec<LogRecord> = Vec::new();
    let mut fast_count: usize = 0;
    let mut full_count: usize = 0;
    let mut skipped: usize = 0;
    let mut i: usize = 0;
    let ghost whole = walk_log(buf@);
    assert(buf@.skip(0) =~= buf@);
    while i < n
        invariant
            n == buf@.len(),
            i <= n,
            records@.len() <= i,
            skipped <= i,
            records@.len() == fast_count + full_count,
            93 * fast_count + 194 * full_count + skipped <= i,
            forall|k: int| 0 <= k < records@.len() ==> (#[trigger] records@[k]).payload@.len() == payload_size(records@[k].kind),
            records@.map_values(|x: LogRecord| record_view(x)) + walk_log(buf@.skip(i as int)).records == whole.records,
            skipped + walk_log(buf@.skip(i as int)).skipped == whole.skipped,
            fast_count == count_kind(records@.map_values(|x: LogRecord| record_view(x)), RecordKind::Fast),
            full_count == count_kind(records@.map_values(|x: LogRecord| record_view(x)), RecordKind::Full),
        ensures
            i < n ==> walk_log(buf@.skip(i as int)).records.len() == 0 && walk_log(buf@.skip(i as int)).skipped == 0,
            i >= n ==> i == n,
        decreases n - i,
    {
        let ghost rest = buf@.skip(i as int);
        let ghost done = records@.map_values(|x: LogRecord| record_view(x));
        proof {
            lemma_count_kind_bound(done, RecordKind::Fast);
            lemma_count_kind_bound(done, RecordKind::Full);
        }
        let b = buf[i];
        assert(rest[0] == b && rest.len() == n - i);
        if b == 0xFFu8 {
            break;
        }
        if b == FAST_RECORD_TAG {
            if n - i < 1 + FAST_RECORD_SIZE {
                break;
            }
            let end = i + 1 + FAST_RECORD_SIZE;
            let payload = copy_range(buf, i + 1, end);
            proof {
                assert(rest.subrange(1, 93) =~= payload@);
                assert(rest.skip(93) =~= buf@.skip(end as int));
            }
            let rec = LogRecord { kind: RecordKind::Fast, payload };
            records.push(rec);
            proof {
                let now = records@.map_values(|x: LogRecord| record_view(x));
                assert(now =~= done.push((RecordKind::Fast, payload@)));
                lemma_count_kind_push(done, (RecordKind::Fast, payload@), RecordKind::Fast);
                lemma_count_kind_push(done, (RecordKind::Fast, payload@), RecordKind::Full);
                assert(done.push((RecordKind::Fast, payload@)) + walk_log(buf@.skip(end as int)).records
                    =~= done + walk_log(rest).records);
            }
            fast_count += 1;
            i = end;
        } else if b == FULL_RECORD_TAG {
            if n - i < 1 + PACKET_SIZE {
                break;
            }
            let end = i + 1 + PACKET_SIZE;
            let payload = copy_range(buf, i + 1, end);
            proof {
                assert(rest.subrange(1, 194) =~= payload@);
                assert(rest.skip(194) =~= buf@.skip(end as int));
            }
            let rec = LogRecord { kind: RecordKind::Full, payload };
            records.push(rec);
            proof {
                let now = records@.map_values(|x: LogRecord| record_view(x));
                assert(now =~= done.push((RecordKind::Full, payload@)));
                lemma_count_kind_push(done, (RecordKind::Full, payload@), RecordKind::Fast);
                lemma_count_kind_push(done, (RecordKind::Full, payload@), RecordKind::Full);
                assert(done.push((RecordKind::Full, payload@)) + walk_log(buf@.skip(end as int)).records
                    =~= done + walk_log(rest).records);
            }
            full_count += 1;
            i = end;
        } else {
            proof {
                assert(rest.skip(1) =~= buf@.skip(i + 1));
            }
            skipped += 1;
            i += 1;
        }
    }
    proof {
        let done = records@.map_values(|x: LogRecord| record_view(x));
        if i >= n {
            assert(buf@.skip(i as int) =~= Seq::<u8>::empty());
        }
        assert(walk_log(buf@.skip(i as int)).records =~= Seq::<(RecordKind, Seq<u8>)>::empty());
        assert(done + Seq::<(RecordKind, Seq<u8>)>::empty() =~= done);
    }
    DecodedLog { records, fast_count, full_count, skipped }
}

// ---------------------------------------------------------------------------
// What the firmware writes decodes back
// ---------------------------------------------------------------------------

/// A record the firmware appends to the log.
pub enum LogEntry {
    Fast(FastRecord),
    Full(Packet),
}

/// The bytes the firmware appends for an entry: its tag and its payload.
pub open spec fn entry_frame(e: LogEntry) -> Seq<u8> {
    match e {
        LogEntry::Fast(f) => seq![FAST_RECORD_TAG] + fast_record_bytes(f),
        LogEntry::Full(p) => seq![FULL_RECORD_TAG] + packet_bytes(p),
    }
}

/// The record an entry decodes to.
pub open spec fn entry_record(e: LogEntry) -> (RecordKind, Seq<u8>) {
    match e {
        LogEntry::Fast(f) => (RecordKind::Fast, fast_record_bytes(f)),
        LogEntry::Full(p) => (RecordKind::Full, packet_bytes(p)),
    }
}

/// The log holding `entries` in order.
pub open spec fn log_bytes(entries: Seq<LogEntry>) -> Seq<u8> {
    entries.map_values(|e: LogEntry| entry_frame(e)).flatten()
}

proof fn lemma_entry_frame(e: LogEntry)
    ensures
        entry_frame(e).len() == 1 + payload_size(entry_record(e).0),
        entry_frame(e)[0] == (match e { LogEntry::Fast(_) => FAST_RECORD_TAG, LogEntry::Full(_) => FULL_RECORD_TAG }),
        entry_frame(e).subrange(1, entry_frame(e).len() as int) == entry_record(e).1,
{
    match e {
        LogEntry::Fast(f) => {
            assert(fast_record_bytes(f).len() == 92) by {
                crate::packet::lemma_fast_record_layout(f);
            }
            assert(entry_frame(e).subrange(1, 93) =~= fast_record_bytes(f));
        },
        LogEntry::Full(p) => {
            assert(packet_bytes(p).len() == 193) by {
                crate::packet::lemma_packet_layout(p);
            }
            assert(entry_frame(e).subrange(1, 194) =~= packet_bytes(p));
        },
    }
}

proof fn lemma_walk_one(e: LogEntry, rest: Seq<u8>)
    ensures
        walk_log(entry_frame(e) + rest).records == seq![entry_record(e)] + walk_log(rest).records,
        walk_log(entry_frame(e) + rest).skipped == walk_log(rest).skipped,
{
    lemma_entry_frame(e);
    let s = entry_frame(e) + rest;
    let k = entry_frame(e).len() as int;
    assert(s.skip(k) =~= rest);
    assert(s.subrange(1, k) =~= entry_frame(e).subrange(1, k));
    assert(s[0] == entry_frame(e)[0]);
}

proof fn lemma_log_bytes_cons(entries: Seq<LogEntry>)
    requires
        entries.len() > 0,
    ensures
        log_bytes(entries) == entry_frame(entries[0]) + log_bytes(entries.drop_first()),
        entries.map_values(|e: LogEntry| entry_record(e))
            == seq![entry_record(entries[0])] + entries.drop_first().map_values(|e: LogEntry| entry_record(e)),
{
    let frames = entries.map_values(|e: LogEntry| entry_frame(e));
    assert(frames.drop_first() =~= entries.drop_first().map_values(|e: LogEntry| entry_frame(e)));
    assert(frames.first() == entry_frame(entries[0]));
    assert(entries.map_values(|e: LogEntry| entry_record(e))
        =~= seq![entry_record(entries[0])] + entries.drop_first().map_values(|e: LogEntry| entry_record(e)));
}

/// A log written by appending records decodes to exactly those records, in
/// order, with nothing stepped over, when it is followed by erased flash or by
/// the end of the dump.
#[verifier::spinoff_prover]
#[verifier::rlimit(40)]
pub proof fn lemma_log_decodes_appended(entries: Seq<LogEntry>, tail: Seq<u8>)
    requires
        tail.len() == 0 || tail[0] == 0xFF,
    ensures
        walk_log(log_bytes(entries) + tail).records == entries.map_values(|e: LogEntry| entry_record(e)),
        walk_log(log_bytes(entries) + tail).skipped == 0,
    decreases entries.len(),
{
    if entries.len() == 0 {
        assert(entries.map_values(|e: LogEntry| entry_frame(e)) =~= Seq::<Seq<u8>>::empty());
        assert(log_bytes(entries) + tail =~= tail);
        assert(entries.map_values(|e: LogEntry| entry_record(e)) =~= Seq::<(RecordKind, Seq<u8>)>::empty());
    } else {
        let e = entries[0];
        let later = entries.drop_first();
        lemma_log_decodes_appended(later, tail);
        lemma_log_bytes_cons(entries);
        let rest = log_bytes(later) + tail;
        assert(log_bytes(entries) + tail =~= entry_frame(e) + rest);
        lemma_walk_one(e, rest);
    }
}

// ---------------------------------------------------------------------------
// Carry-forward of the slow fields
// ---------------------------------------------------------------------------

/// GPS and BLiMS fields that only full records carry. Each CSV row built from
/// a high-rate record repeats the values of the last full record before it
/// (zero before the first). Floating-point values are bit patterns.
#[derive(Clone, Copy, Debug, PartialEq, Eq, Structural)]
pub struct SlowFields {
    pub latitude: u32,
    pub longitude: u32,
    pub num_satellites: u32,
    pub timestamp: u32,
    pub h_acc: u32,
    pub v_acc: u32,
    pub vel_n: u64,
    pub vel_e: u64,
    pub vel_d: u64,
    pub g_speed: u64,
    pub s_acc: u32,
    pub head_acc: u32,
    pub fix_type: u8,
    pub head_mot: i32,
    pub blims_pid_p: u32,
    pub blims_pid_i: u32,
    pub blims_bearing: u32,
    pub blims_upwind_lat: u32,
    pub blims_upwind_lon: u32,
    pub blims_downwind_lat: u32,
    pub blims_downwind_lon: u32,
    pub blims_wind_from_deg: u32,
}

/// All slow fields zero: what the rows show before the first full record.
pub open spec fn zero_slow() -> SlowFields {
    SlowFields {
        latitude: 0,
        longitude: 0,
        num_satellites: 0,
        timestamp: 0,
        h_acc: 0,
        v_acc: 0,
        vel_n: 0,
        vel_e: 0,
        vel_d: 0,
        g_speed: 0,
        s_acc: 0,
        head_acc: 0,
        fix_type: 0,
        head_mot: 0,
        blims_pid_p: 0,
        blims_pid_i: 0,
        blims_bearing: 0,
        blims_upwind_lat: 0,
        blims_upwind_lon: 0,
        blims_downwind_lat: 0,
        blims_downwind_lon: 0,
        blims_wind_from_deg: 0,
    }
}

impl Default for SlowFields {
    fn default() -> (r: SlowFields)
        ensures
            r == zero_slow(),
    {
        SlowFields {
            latitude: 0,
            longitude: 0,
            num_satellites: 0,
            timestamp: 0,
            h_acc: 0,
            v_acc: 0,
            vel_n: 0,
            vel_e: 0,
            vel_d: 0,
            g_speed: 0,
            s_acc: 0,
            head_acc: 0,
            fix_type: 0,
            head_mot: 0,
            blims_pid_p: 0,
            blims_pid_i: 0,
            blims_bearing: 0,
            blims_upwind_lat: 0,
            blims_upwind_lon: 0,
            blims_downwind_lat: 0,
            blims_downwind_lon: 0,
            blims_wind_from_deg: 0,
        }
    }
}

/// The slow fields of a packet.
pub open spec fn slow_fields_of(p: Packet) -> SlowFields {
    SlowFields {
        latitude: p.latitude,
        longitude: p.longitude,
        num_satellites: p.num_satellites,
        timestamp: p.timestamp,
        h_acc: p.h_acc,
        v_acc: p.v_acc,
        vel_n: p.vel_n,
        vel_e: p.vel_e,
        vel_d: p.vel_d,
        g_speed: p.g_speed,
        s_acc: p.s_acc,
        head_acc: p.head_acc,
        fix_type: p.fix_type,
        head_mot: p.head_mot,
        blims_pid_p: p.blims_pid_p,
        blims_pid_i: p.blims_pid_i,
        blims_bearing: p.blims_bearing,
        blims_upwind_lat: p.blims_upwind_lat,
        blims_upwind_lon: p.blims_upwind_lon,
        blims_downwind_lat: p.blims_downwind_lat,
        blims_downwind_lon: p.blims_downwind_lon,
        blims_wind_from_deg: p.blims_wind_from_deg,
    }
}

impl SlowFields {
    /// Takes the slow fields of a full record.
    pub fn absorb(&mut self, p: &Packet)
        ensures
            *final(self) == slow_fields_of(*p),
    {
        *self = SlowFields {
            latitude: p.latitude,
            longitude: p.longitude,
            num_satellites: p.num_satellites,
            timestamp: p.timestamp,
            h_acc: p.h_acc,
            v_acc: p.v_acc,
            vel_n: p.vel_n,
            vel_e: p.vel_e,
            vel_d: p.vel_d,
            g_speed: p.g_speed,
            s_acc: p.s_acc,
            head_acc: p.head_acc,
            fix_type: p.fix_type,
            head_mot: p.head_mot,
            blims_pid_p: p.blims_pid_p,
            blims_pid_i: p.blims_pid_i,
            blims_bearing: p.blims_bearing,
            blims_upwind_lat: p.blims_upwind_lat,
            blims_upwind_lon: p.blims_upwind_lon,
            blims_downwind_lat: p.blims_downwind_lat,
            blims_downwind_lon: p.blims_downwind_lon,
            blims_wind_from_deg: p.blims_wind_from_deg,
        };
    }
}

/// The CSV row of a high-rate record: the packet columns it carries, with the
/// slow columns filled from the last full record.
pub open spec fn fast_row(f: FastRecord, slow: SlowFields) -> Packet {
    Packet {
        flight_mode: f.flight_mode,
        pressure: f.pressure,
        temp: f.temp,
        altitude: f.altitude,
        latitude: slow.latitude,
        longitude: slow.longitude,
        num_satellites: slow.num_satellites,
        timestamp: slow.timestamp,
        mag_x: f.mag_x,
        mag_y: f.mag_y,
        mag_z: f.mag_z,
        accel_x: f.accel_x,
        accel_y: f.accel_y,
        accel_z: f.accel_z,
        gyro_x: f.gyro_x,
        gyro_y: f.gyro_y,
        gyro_z: f.gyro_z,
        pt3: f.pt3,
        pt4: f.pt4,
        rtd: f.rtd,
        sv_open: f.sv_open,
        mav_open: f.mav_open,
        ssa_drogue_deployed: f.ssa_drogue_deployed,
        ssa_main_deployed: f.ssa_main_deployed,
        cmd_n1: f.cmd_n1,
        cmd_n2: f.cmd_n2,
        cmd_n3: f.cmd_n3,
        cmd_n4: f.cmd_n4,
        cmd_a1: f.cmd_a1,
        cmd_a2: f.cmd_a2,
        cmd_a3: f.cmd_a3,
        airbrake_deployment: f.airbrake_deployment,
        predicted_apogee: f.predicted_apogee,
        h_acc: slow.h_acc,
        v_acc: slow.v_acc,
        vel_n: slow.vel_n,
        vel_e: slow.vel_e,
        vel_d: slow.vel_d,
        g_speed: slow.g_speed,
        s_acc: slow.s_acc,
        head_acc: slow.head_acc,
        fix_type: slow.fix_type,
        head_mot: slow.head_mot,
        blims_brakeline_diff: f.blims_brakeline_diff,
        blims_phase_id: f.blims_phase_id,
        blims_pid_p: slow.blims_pid_p,
        blims_pid_i: slow.blims_pid_i,
        blims_bearing: slow.blims_bearing,
        blims_upwind_lat: slow.blims_upwind_lat,
        blims_upwind_lon: slow.blims_upwind_lon,
        blims_downwind_lat: slow.blims_downwind_lat,
        blims_downwind_lon: slow.blims_downwind_lon,
        blims_wind_from_deg: slow.blims_wind_from_deg,
        ms_since_boot_cfc: f.ms_since_boot_cfc,
    }
}

/// A high-rate record read after the full record of the same packet gives
/// that packet back: its own columns come from the record, and every column
/// that only full records carry (GPS fix, BLiMS terms and targets) repeats
/// the full record's value, each in its own column.
pub proof fn lemma_fast_row_restores_packet(p: Packet)
    ensures
        fast_row(crate::packet::fast_record_of(p), slow_fields_of(p)) == p,
{
}

/// Each carried column of a high-rate row is the same column of the last
/// full record: a row made from a fast record after the full record of `p`
/// agrees with `p` on every GPS and BLiMS column, whatever the fast record.
pub proof fn lemma_fast_row_carries_columns(f: crate::packet::FastRecord, p: Packet)
    ensures
        ({
            let r = fast_row(f, slow_fields_of(p));
            &&& r.latitude == p.latitude
            &&& r.longitude == p.longitude
            &&& r.num_satellites == p.num_satellites
            &&& r.timestamp == p.timestamp
            &&& r.h_acc == p.h_acc
            &&& r.v_acc == p.v_acc
            &&& r.vel_n == p.vel_n
            &&& r.vel_e == p.vel_e
            &&& r.vel_d == p.vel_d
            &&& r.g_speed == p.g_speed
            &&& r.s_acc == p.s_acc
            &&& r.head_acc == p.head_acc
            &&& r.fix_type == p.fix_type
            &&& r.head_mot == p.head_mot
            &&& r.blims_pid_p == p.blims_pid_p
            &&& r.blims_pid_i == p.blims_pid_i
            &&& r.blims_bearing == p.blims_bearing
            &&& r.blims_upwind_lat == p.blims_upwind_lat
            &&& r.blims_upwind_lon == p.blims_upwind_lon
            &&& r.blims_downwind_lat == p.blims_downwind_lat
            &&& r.blims_downwind_lon == p.blims_downwind_lon
            &&& r.blims_wind_from_deg == p.blims_wind_from_deg
            &&& r.ms_since_boot_cfc == f.ms_since_boot_cfc
            &&& r.altitude == f.altitude
        }),
{
}

/// The values of one CSV row, in column order, from a decoded record: a full
/// record's own packet (whose slow fields are carried forward), or a high-rate
/// record completed from the carried slow fields.
pub fn row_values(rec: &LogRecord, slow: &mut SlowFields) -> (r: Packet)
    requires
        rec.payload@.len() == payload_size(rec.kind),
    ensures
        match rec.kind {
            RecordKind::Full => {
                &&& r == crate::packet::packet_from_bytes(rec.payload@)
                &&& *final(slow) == slow_fields_of(r)
            },
            RecordKind::Fast => {
                &&& r == fast_row(crate::packet::fast_record_from_bytes(rec.payload@), *old(slow))
                &&& *final(slow) == *old(slow)
            },
        },
{
    match rec.kind {
        RecordKind::Full => {
            let p = Packet::from_bytes(rec.payload.as_slice());
            slow.absorb(&p);
            p
        },
        RecordKind::Fast => {
            let f = FastRecord::from_bytes(rec.payload.as_slice());
            Packet {
                flight_mode: f.flight_mode,
                pressure: f.pressure,
                temp: f.temp,
                altitude: f.altitude,
                latitude: slow.latitude,
                longitude: slow.longitude,
                num_satellites: slow.num_satellites,
                timestamp: slow.timestamp,
                mag_x: f.mag_x,
                mag_y: f.mag_y,
                mag_z: f.mag_z,
                accel_x: f.accel_x,
                accel_y: f.accel_y,
                accel_z: f.accel_z,
                gyro_x: f.gyro_x,
                gyro_y: f.gyro_y,
                gyro_z: f.gyro_z,
                pt3: f.pt3,
                pt4: f.pt4,
                rtd: f.rtd,
                sv_open: f.sv_open,
                mav_open: f.mav_open,
                ssa_drogue_deployed: f.ssa_drogue_deployed,
                ssa_main_deployed: f.ssa_main_deployed,
                cmd_n1: f.cmd_n1,
                cmd_n2: f.cmd_n2,
                cmd_n3: f.cmd_n3,
                cmd_n4: f.cmd_n4,
                cmd_a1: f.cmd_a1,
                cmd_a2: f.cmd_a2,
                cmd_a3: f.cmd_a3,
                airbrake_deployment: f.airbrake_deployment,
                predicted_apogee: f.predicted_apogee,
                h_acc: slow.h_acc,
                v_acc: slow.v_acc,
                vel_n: slow.vel_n,
                vel_e: slow.vel_e,
                vel_d: slow.vel_d,
                g_speed: slow.g_speed,
                s_acc: slow.s_acc,
                head_acc: slow.head_acc,
                fix_type: slow.fix_type,
                head_mot: slow.head_mot,
                blims_brakeline_diff: f.blims_brakeline_diff,
                blims_phase_id: f.blims_phase_id,
                blims_pid_p: slow.blims_pid_p,
                blims_pid_i: slow.blims_pid_i,
                blims_bearing: slow.blims_bearing,
                blims_upwind_lat: slow.blims_upwind_lat,
                blims_upwind_lon: slow.blims_upwind_lon,
                blims_downwind_lat: slow.blims_downwind_lat,
                blims_downwind_lon: slow.blims_downwind_lon,
                blims_wind_from_deg: slow.blims_wind_from_deg,
                ms_since_boot_cfc: f.ms_since_boot_cfc,
            }
        },
    }
}

/// The slow fields in force after `recs`: those of the last full record,
/// or zero when there is none.
pub open spec fn slow_before(recs: Seq<(RecordKind, Seq<u8>)>) -> SlowFields
    decreases recs.len(),
{
    if recs.len() == 0 {
        zero_slow()
    } else if recs.last().0 == RecordKind::Full {
        slow_fields_of(crate::packet::packet_from_bytes(recs.last().1))
    } else {
        slow_before(recs.drop_last())
    }
}

/// The CSV row of record `i` of a log: a full record's packet, or a
/// high-rate record completed with the slow fields of the last full record
/// before it.
pub open spec fn log_row(recs: Seq<(RecordKind, Seq<u8>)>, i: int) -> Packet {
    match recs[i].0 {
        RecordKind::Full => crate::packet::packet_from_bytes(recs[i].1),
        RecordKind::Fast => fast_row(crate::packet::fast_record_from_bytes(recs[i].1), slow_before(recs.take(i))),
    }
}

/// The two valve bytes (`sv_open`, `mav_open`) as a record stores them. The
/// CSV prints these bytes as stored, which a flag that reads as set need not
/// hold as 1.
pub open spec fn valve_bytes_spec(kind: RecordKind, payload: Seq<u8>) -> (u8, u8) {
    match kind {
        RecordKind::Full => (payload[80], payload[81]),
        RecordKind::Fast => (payload[68], payload[69]),
    }
}

/// The stored valve bytes of a decoded record.
pub fn valve_bytes(rec: &LogRecord) -> (r: (u8, u8))
    requires
        rec.payload@.len() == payload_size(rec.kind),
    ensures
        r == valve_bytes_spec(rec.kind, rec.payload@),
{
    match rec.kind {
        RecordKind::Full => (rec.payload[80], rec.payload[81]),
        RecordKind::Fast => (rec.payload[68], rec.payload[69]),
    }
}

/// The CSV rows of a decoded log, one per record, in order.
pub fn log_rows(records: &Vec<LogRecord>) -> (rows: Vec<Packet>)
    requires
        forall|i: int| 0 <= i < records@.len() ==> (#[trigger] records@[i]).payload@.len() == payload_size(records@[i].kind),
    ensures
        rows@.len() == records@.len(),
        forall|i: int| 0 <= i < rows@.len() ==> #[trigger] rows@[i] == log_row(records@.map_values(|x: LogRecord| record_view(x)), i),
{
    let ghost view = records@.map_values(|x: LogRecord| record_view(x));
    let mut slow = SlowFields::default();
    let mut rows: Vec<Packet> = Vec::new();
    let mut i: usize = 0;
    assert(view.take(0) =~= Seq::<(RecordKind, Seq<u8>)>::empty());
    while i < records.len()
        invariant
            i <= records@.len(),
            view == records@.map_values(|x: LogRecord| record_view(x)),
            forall|k: int| 0 <= k < records@.len() ==> (#[trigger] records@[k]).payload@.len() == payload_size(records@[k].kind),
            slow == slow_before(view.take(i as int)),
            rows@.len() == i,
            forall|k: int| 0 <= k < i ==> #[trigger] rows@[k] == log_row(view, k),
        decreases records@.len() - i,
    {
        let ghost before = slow;
        let row = row_values(&records[i], &mut slow);
        proof {
            let t = view.take(i + 1);
            assert(t.drop_last() =~= view.take(i as int));
            assert(t.last() == view[i as int]);
            assert(view[i as int] == record_view(records@[i as int]));
        }
        rows.push(row);
        i += 1;
    }
    rows
}

// ---------------------------------------------------------------------------
// Finding the dump in the serial stream
// ---------------------------------------------------------------------------

/// Whether `s` contains `needle` anywhere.
pub open spec fn contains_seq(s: Seq<u8>, needle: Seq<u8>) -> bool {
    exists|i: int| window_at(s, needle, i)
}

/// Feeding received bytes to the line assembler that waits for the begin
/// marker: a newline ends a line, which starts the dump when it holds the
/// marker; carriage returns are dropped. Gives the partial line left over and
/// whether the dump started (the bytes after that newline are not kept).
pub open spec fn scan_begin(line: Seq<u8>, chunk: Seq<u8>) -> (Seq<u8>, bool)
    decreases chunk.len(),
{
    if chunk.len() == 0 {
        (line, false)
    } else if chunk[0] == 10 {
        if contains_seq(line, begin_marker_spec()) {
            (Seq::empty(), true)
        } else {
            scan_begin(Seq::empty(), chunk.drop_first())
        }
    } else if chunk[0] == 13 {
        scan_begin(line, chunk.drop_first())
    } else {
        scan_begin(line.push(chunk[0]), chunk.drop_first())
    }
}

/// Feeds a chunk received before the dump began to the line assembler;
/// returns whether the begin marker line was completed.
pub fn scan_for_begin(line: &mut Vec<u8>, chunk: &[u8]) -> (started: bool)
    ensures
        (final(line)@, started) == scan_begin(old(line)@, chunk@),
{
    let marker = begin_marker();
    let mut i: usize = 0;
    assert(chunk@.skip(0) =~= chunk@);
    while i < chunk.len()
        invariant
            i <= chunk@.len(),
            marker@ == begin_marker_spec(),
            scan_begin(line@, chunk@.skip(i as int)) == scan_begin(old(line)@, chunk@),
        decreases chunk@.len() - i,
    {
        let b = chunk[i];
        let ghost rest = chunk@.skip(i as int);
        assert(rest.drop_first() =~= chunk@.skip(i + 1));
        if b == 10u8 {
            let found = find_window(line.as_slice(), marker.as_slice());
            if found.is_some() {
                line.clear();
                assert(line@ =~= Seq::<u8>::empty());
                return true;
            }
            line.clear();
            assert(line@ =~= Seq::<u8>::empty());
        } else if b != 13u8 {
            line.push(b);
        }
        i += 1;
    }
    assert(chunk@.skip(i as int) =~= Seq::<u8>::empty());
    false
}

/// The position just past the last newline before `pos`, or `pos` itself
/// when there is none: the start of the line that holds `pos`.
pub open spec fn line_start(buf: Seq<u8>, pos: int) -> int {
    if exists|j: int| 0 <= j < pos && buf[j] == 10 {
        (choose|j: int| 0 <= j < pos && buf[j] == 10 && forall|k: int| j < k < pos ==> buf[k] != 10) + 1
    } else {
        pos
    }
}

/// Finds the end marker in `buf` at or after `search_start` and gives the
/// length the buffer is cut to: the start of the line that holds the marker.
pub fn end_marker_cut(buf: &[u8], search_start: usize) -> (r: Option<usize>)
    requires
        search_start <= buf@.len(),
    ensures
        match r {
            Some(cut) => exists|pos: int| {
                &&& search_start <= pos
                &&& window_at(buf@, end_marker_spec(), pos)
                &&& forall|q: int| search_start <= q < pos ==> !window_at(buf@, end_marker_spec(), q)
                &&& cut == line_start(buf@, pos)
            },
            None => forall|q: int| search_start <= q ==> !window_at(buf@, end_marker_spec(), q),
        },
{
    let marker = end_marker();
    let tail = vstd::slice::slice_subrange(buf, search_start, buf.len());
    match find_window(tail, marker.as_slice()) {
        None => {
            assert forall|q: int| search_start <= q implies !window_at(buf@, end_marker_spec(), q) by {
                if window_at(buf@, end_marker_spec(), q) {
                    assert(tail@.subrange(q - search_start, q - search_start + 21) =~= buf@.subrange(q, q + 21));
                    assert(window_at(tail@, marker@, q - search_start));
                }
            }
            None
        },
        Some(p) => {
            let pos = search_start + p;
            assert(tail@.subrange(p as int, p + 21) =~= buf@.subrange(pos as int, pos + 21));
            assert forall|q: int| search_start <= q < pos implies !window_at(buf@, end_marker_spec(), q) by {
                if window_at(buf@, end_marker_spec(), q) {
                    assert(tail@.subrange(q - search_start, q - search_start + 21) =~= buf@.subrange(q, q + 21));
                    assert(window_at(tail@, marker@, q - search_start));
                }
            }
            let mut j = pos;
            while j > 0
                invariant
                    j <= pos,
                    search_start <= pos <= buf@.len(),
                    window_at(buf@, end_marker_spec(), pos as int),
                    forall|q: int| search_start <= q < pos ==> !window_at(buf@, end_marker_spec(), q),
                    forall|k: int| j <= k < pos ==> buf@[k] != 10,
                decreases j,
            {
                if buf[j - 1] == 10u8 {
                    let ghost nl = (j - 1) as int;
                    proof {
                        assert(exists|x: int| 0 <= x < pos && buf@[x] == 10);
                        let c = choose|x: int| 0 <= x < pos && buf@[x] == 10 && forall|k: int| x < k < pos ==> buf@[k] != 10;
                        assert(0 <= nl < pos && buf@[nl] == 10 && forall|k: int| nl < k < pos ==> buf@[k] != 10);
                        if c < nl {
                            assert(buf@[nl] != 10);
                        } else if c > nl {
                            assert(buf@[c] != 10);
                        }
                        assert(line_start(buf@, pos as int) == j);
                        assert(window_at(buf@, end_marker_spec(), pos as int));
                    }
                    return Some(j);
                }
                j -= 1;
            }
            assert(!exists|x: int| 0 <= x < pos && buf@[x] == 10);
            assert(line_start(buf@, pos as int) == pos);
            assert(window_at(buf@, end_marker_spec(), pos as int));
            Some(pos)
        },
    }
}

} // verus!
