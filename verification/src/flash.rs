//! Storage layout and bookkeeping for the 16 MiB onboard SPI flash
//! (W25Q128JV): the append-only data log, the crash-recovery snapshot ring,
//! and the command frames sent to the chip.
//!
//! The chip is driven over SPI by the caller. What is decided here is where
//! every byte goes: which pages a record is split across and which sectors
//! must be erased first, how the end of the log is found after a reset, which
//! ring slot holds the newest snapshot and where the next one goes.

use vstd::prelude::*;
use vstd::array::array_as_slice;
use vstd::slice::slice_subrange;
use crate::bytes::{
    le_u32, u32_of, push_u32, read_u32, to_array, lemma_u32_roundtrip, lemma_u32_bytes_roundtrip, lemma_prefix_split,
    lemma_range_in_prefix, lemma_range_in_suffix,
};
use crate::packet::{Packet, FastRecord, FAST_RECORD_TAG, FULL_RECORD_TAG, packet_bytes, fast_record_bytes};

verus! {

/// Total flash size: 16 MiB.
pub const FLASH_SIZE: u32 = 0x100_0000;
/// Program granularity.
pub const PAGE_SIZE: u32 = 256;
/// Erase granularity.
pub const SECTOR_SIZE: u32 = 4096;
/// Start of the data-log region.
pub const STORAGE_OFFSET: u32 = 0x20_0000;
/// Size of the data-log region.
pub const STORAGE_SIZE: u32 = 0xE0_0000;
/// End of the data-log region (also the end of the chip).
pub const STORAGE_END: u32 = 0x100_0000;
/// Start of the snapshot ring.
pub const SNAPSHOT_RING_BASE: u32 = 0x10_0000;
/// Size of the snapshot ring: 16 sectors.
pub const SNAPSHOT_RING_SIZE: u32 = 0x1_0000;
/// Size of one snapshot record.
pub const SNAPSHOT_RECORD_SIZE: u32 = 64;
/// Number of record slots in the ring.
pub const SNAPSHOT_SLOT_COUNT: u32 = 1024;
/// Sequence number that marks an unused slot.
pub const SNAPSHOT_EMPTY_SEQ: u32 = 0xFFFF_FFFF;
/// Sector holding the single packet image kept outside the log, just below it.
pub const PACKET_OFFSET: u32 = 0x1F_F000;

/// Write Enable.
pub const CMD_WREN: u8 = 0x06;
/// Read Data.
pub const CMD_READ: u8 = 0x03;
/// Page Program.
pub const CMD_PAGE_PROG: u8 = 0x02;
/// Sector Erase (4 KiB).
pub const CMD_SECTOR_ERASE: u8 = 0x20;
/// Read Status Register 1.
pub const CMD_RDSR1: u8 = 0x05;
/// Read JEDEC ID.
pub const CMD_JEDEC_ID: u8 = 0x9F;

/// Flash driver errors.
#[derive(Clone, Copy, Debug, PartialEq, Eq, Structural)]
pub enum Error {
    Read,
    Write,
    Erase,
    OutOfBounds,
    StorageFull,
    Spi,
}

// ---------------------------------------------------------------------------
// Command frames and chip status
// ---------------------------------------------------------------------------

/// A command byte followed by a 24-bit address, most significant byte first.
pub open spec fn command_frame_spec(cmd: u8, addr: u32) -> Seq<u8> {
    seq![cmd, ((addr / 65536) % 256) as u8, ((addr / 256) % 256) as u8, (addr % 256) as u8]
}

/// Builds the 4-byte header of a Read, Page Program or Sector Erase command.
pub fn command_frame(cmd: u8, addr: u32) -> (r: [u8; 4])
    ensures
        r@ == command_frame_spec(cmd, addr),
{
    let mut v: Vec<u8> = Vec::new();
    v.push(cmd);
    v.push(((addr / 65536) % 256) as u8);
    v.push(((addr / 256) % 256) as u8);
    v.push((addr % 256) as u8);
    assert(v@ =~= command_frame_spec(cmd, addr));
    to_array(&v)
}

/// A bus transfer's outcome as the flash driver reports it: any SPI error
/// is `Spi`.
pub fn spi_result<T, E>(r: Result<T, E>) -> (o: Result<T, Error>)
    ensures
        r is Ok ==> o is Ok && o->Ok_0 == r->Ok_0,
        r is Err ==> o == Err::<T, Error>(Error::Spi),
{
    match r {
        Ok(v) => Ok(v),
        Err(_) => Err(Error::Spi),
    }
}

/// Whether status register 1 reports the chip idle (BUSY bit clear).
pub fn status_ready(status: u8) -> (r: bool)
    ensures
        r == (status & 1u8 == 0u8),
{
    status & 1u8 == 0u8
}

/// Whether a JEDEC ID answer comes from a chip: a floating bus reads all 0xFF.
pub fn chip_present(id: &[u8; 3]) -> (r: bool)
    ensures
        r == !(id@[0] == 0xFF && id@[1] == 0xFF && id@[2] == 0xFF),
{
    let b = array_as_slice(id);
    !(b[0] == 0xFFu8 && b[1] == 0xFFu8 && b[2] == 0xFFu8)
}

/// Whether every byte of a page read back is in the erased state (0xFF).
pub fn page_erased(buf: &[u8]) -> (r: bool)
    ensures
        r == (forall|i: int| 0 <= i < buf@.len() ==> buf@[i] == 0xFF),
{
    let mut i: usize = 0;
    while i < buf.len()
        invariant
            i <= buf@.len(),
            forall|j: int| 0 <= j < i ==> buf@[j] == 0xFF,
        decreases buf@.len() - i,
    {
        if buf[i] != 0xFFu8 {
            return false;
        }
        i += 1;
    }
    true
}

// ---------------------------------------------------------------------------
// Snapshot records
// ---------------------------------------------------------------------------

/// The running sums `(a, s)` of the record checksum over `data`: `a` adds each
/// byte and `s` adds each new `a`, both modulo 2^32.
pub open spec fn fletcher_sums(data: Seq<u8>) -> (u32, u32)
    decreases data.len(),
{
    if data.len() == 0 {
        (0, 0)
    } else {
        let (a, s) = fletcher_sums(data.drop_last());
        let a2 = ((a + data.last()) % 4294967296) as u32;
        (a2, ((s + a2) % 4294967296) as u32)
    }
}

/// The record checksum of `data`: `(s << 16) ^ a` over the running sums.
pub open spec fn fletcher32(data: Seq<u8>) -> u32 {
    let (a, s) = fletcher_sums(data);
    (s << 16u32) ^ a
}

/// Persistent flight state kept in the snapshot ring for crash recovery.
///
/// Record layout (64 bytes): magic (0..2), the fields below in order, little-endian
/// (2..58), a checksum over bytes 0..58 (58..62), and two unused 0xFF bytes.
#[derive(Clone, Copy, Debug, PartialEq, Eq, Structural)]
pub struct Snapshot {
    pub seq: u32,
    pub flight_mode: u32,
    pub cycle_count: u32,
    /// `f32` bit pattern.
    pub pressure: u32,
    /// `f32` bit pattern.
    pub arming_altitude: u32,
    /// `f32` bit pattern.
    pub altitude: u32,
    pub mav_open: u32,
    pub sv_open: u32,
    pub launch_stage: u32,
    pub launch_elapsed_ms: u32,
    /// `f32` bit pattern.
    pub blims_upwind_lat: u32,
    /// `f32` bit pattern.
    pub blims_upwind_lon: u32,
    /// `f32` bit pattern.
    pub blims_downwind_lat: u32,
    /// `f32` bit pattern.
    pub blims_downwind_lon: u32,
}

/// The all-zero snapshot.
pub open spec fn zero_snapshot() -> Snapshot {
    Snapshot {
        seq: 0,
        flight_mode: 0,
        cycle_count: 0,
        pressure: 0,
        arming_altitude: 0,
        altitude: 0,
        mav_open: 0,
        sv_open: 0,
        launch_stage: 0,
        launch_elapsed_ms: 0,
        blims_upwind_lat: 0,
        blims_upwind_lon: 0,
        blims_downwind_lat: 0,
        blims_downwind_lon: 0,
    }
}

impl Default for Snapshot {
    fn default() -> (s: Snapshot)
        ensures
            s == zero_snapshot(),
    {
        Snapshot {
            seq: 0,
            flight_mode: 0,
            cycle_count: 0,
            pressure: 0,
            arming_altitude: 0,
            altitude: 0,
            mav_open: 0,
            sv_open: 0,
            launch_stage: 0,
            launch_elapsed_ms: 0,
            blims_upwind_lat: 0,
            blims_upwind_lon: 0,
            blims_downwind_lat: 0,
            blims_downwind_lon: 0,
        }
    }
}

/// Bytes 2..58 of a snapshot record: the fields in declaration order, little-endian.
pub open spec fn snapshot_field_bytes(s: Snapshot) -> Seq<u8> {
    le_u32(s.seq)
        + le_u32(s.flight_mode)
        + le_u32(s.cycle_count)
        + le_u32(s.pressure)
        + le_u32(s.arming_altitude)
        + le_u32(s.altitude)
        + le_u32(s.mav_open)
        + le_u32(s.sv_open)
        + le_u32(s.launch_stage)
        + le_u32(s.launch_elapsed_ms)
        + le_u32(s.blims_upwind_lat)
        + le_u32(s.blims_upwind_lon)
        + le_u32(s.blims_downwind_lat)
        + le_u32(s.blims_downwind_lon)
}

/// Bytes 0..58 of a snapshot record: the magic, then the fields.
pub open spec fn snapshot_body(s: Snapshot) -> Seq<u8> {
    seq![0x5Au8, 0xA5u8] + snapshot_field_bytes(s)
}

/// The 64-byte record of a snapshot: body, checksum of the body, two 0xFF bytes.
pub open spec fn snapshot_bytes(s: Snapshot) -> Seq<u8> {
    snapshot_body(s) + le_u32(fletcher32(snapshot_body(s))) + seq![0xFFu8, 0xFFu8]
}

/// The snapshot whose fields are stored at bytes 2..58 of `b`.
pub open spec fn snapshot_fields_of(b: Seq<u8>) -> Snapshot {
    Snapshot {
        seq: u32_of(b.subrange(2, 6)),
        flight_mode: u32_of(b.subrange(6, 10)),
        cycle_count: u32_of(b.subrange(10, 14)),
        pressure: u32_of(b.subrange(14, 18)),
        arming_altitude: u32_of(b.subrange(18, 22)),
        altitude: u32_of(b.subrange(22, 26)),
        mav_open: u32_of(b.subrange(26, 30)),
        sv_open: u32_of(b.subrange(30, 34)),
        launch_stage: u32_of(b.subrange(34, 38)),
        launch_elapsed_ms: u32_of(b.subrange(38, 42)),
        blims_upwind_lat: u32_of(b.subrange(42, 46)),
        blims_upwind_lon: u32_of(b.subrange(46, 50)),
        blims_downwind_lat: u32_of(b.subrange(50, 54)),
        blims_downwind_lon: u32_of(b.subrange(54, 58)),
    }
}

/// A record holds a snapshot when it starts with the magic and its stored
/// checksum matches bytes 0..58.
pub open spec fn snapshot_record_valid(b: Seq<u8>) -> bool {
    &&& b[0] == 0x5A
    &&& b[1] == 0xA5
    &&& u32_of(b.subrange(58, 62)) == fletcher32(b.subrange(0, 58))
}

/// What a 64-byte record decodes to.
pub open spec fn snapshot_from_bytes(b: Seq<u8>) -> Option<Snapshot> {
    if snapshot_record_valid(b) {
        Some(snapshot_fields_of(b))
    } else {
        None
    }
}

/// Each field of a snapshot occupies its own byte range of the field block.
proof fn lemma_snapshot_field_layout(s: Snapshot)
    ensures
        snapshot_field_bytes(s).len() == 56,
        snapshot_field_bytes(s).subrange(0, 4) == le_u32(s.seq),
        snapshot_field_bytes(s).subrange(4, 8) == le_u32(s.flight_mode),
        snapshot_field_bytes(s).subrange(8, 12) == le_u32(s.cycle_count),
        snapshot_field_bytes(s).subrange(12, 16) == le_u32(s.pressure),
        snapshot_field_bytes(s).subrange(16, 20) == le_u32(s.arming_altitude),
        snapshot_field_bytes(s).subrange(20, 24) == le_u32(s.altitude),
        snapshot_field_bytes(s).subrange(24, 28) == le_u32(s.mav_open),
        snapshot_field_bytes(s).subrange(28, 32) == le_u32(s.sv_open),
        snapshot_field_bytes(s).subrange(32, 36) == le_u32(s.launch_stage),
        snapshot_field_bytes(s).subrange(36, 40) == le_u32(s.launch_elapsed_ms),
        snapshot_field_bytes(s).subrange(40, 44) == le_u32(s.blims_upwind_lat),
        snapshot_field_bytes(s).subrange(44, 48) == le_u32(s.blims_upwind_lon),
        snapshot_field_bytes(s).subrange(48, 52) == le_u32(s.blims_downwind_lat),
        snapshot_field_bytes(s).subrange(52, 56) == le_u32(s.blims_downwind_lon),
{
    let b = snapshot_field_bytes(s);
    let e0 = le_u32(s.seq);
    let e1 = le_u32(s.flight_mode);
    let e2 = le_u32(s.cycle_count);
    let e3 = le_u32(s.pressure);
    let e4 = le_u32(s.arming_altitude);
    let e5 = le_u32(s.altitude);
    let e6 = le_u32(s.mav_open);
    let e7 = le_u32(s.sv_open);
    let e8 = le_u32(s.launch_stage);
    let e9 = le_u32(s.launch_elapsed_ms);
    let e10 = le_u32(s.blims_upwind_lat);
    let e11 = le_u32(s.blims_upwind_lon);
    let e12 = le_u32(s.blims_downwind_lat);
    let e13 = le_u32(s.blims_downwind_lon);
    let s0 = e0;
    let s1 = s0 + e1;
    let s2 = s1 + e2;
    let s3 = s2 + e3;
    let s4 = s3 + e4;
    let s5 = s4 + e5;
    let s6 = s5 + e6;
    let s7 = s6 + e7;
    let s8 = s7 + e8;
    let s9 = s8 + e9;
    let s10 = s9 + e10;
    let s11 = s10 + e11;
    let s12 = s11 + e12;
    let s13 = s12 + e13;
    lemma_u32_roundtrip(s.seq);
    lemma_u32_roundtrip(s.flight_mode);
    lemma_u32_roundtrip(s.cycle_count);
    lemma_u32_roundtrip(s.pressure);
    lemma_u32_roundtrip(s.arming_altitude);
    lemma_u32_roundtrip(s.altitude);
    lemma_u32_roundtrip(s.mav_open);
    lemma_u32_roundtrip(s.sv_open);
    lemma_u32_roundtrip(s.launch_stage);
    lemma_u32_roundtrip(s.launch_elapsed_ms);
    lemma_u32_roundtrip(s.blims_upwind_lat);
    lemma_u32_roundtrip(s.blims_upwind_lon);
    lemma_u32_roundtrip(s.blims_downwind_lat);
    lemma_u32_roundtrip(s.blims_downwind_lon);
    assert(b == s13);
    assert(b.subrange(0, 56) =~= b);
    lemma_prefix_split(b, s12, e13);
    lemma_prefix_split(b, s11, e12);
    lemma_prefix_split(b, s10, e11);
    lemma_prefix_split(b, s9, e10);
    lemma_prefix_split(b, s8, e9);
    lemma_prefix_split(b, s7, e8);
    lemma_prefix_split(b, s6, e7);
    lemma_prefix_split(b, s5, e6);
    lemma_prefix_split(b, s4, e5);
    lemma_prefix_split(b, s3, e4);
    lemma_prefix_split(b, s2, e3);
    lemma_prefix_split(b, s1, e2);
    lemma_prefix_split(b, s0, e1);
}

/// The parts of a snapshot record lie at their documented byte ranges.
pub proof fn lemma_snapshot_layout(s: Snapshot)
    ensures
        snapshot_bytes(s).len() == 64,
        snapshot_bytes(s).subrange(0, 58) == snapshot_body(s),
        snapshot_bytes(s).subrange(58, 62) == le_u32(fletcher32(snapshot_body(s))),
        snapshot_bytes(s)[0] == 0x5A,
        snapshot_bytes(s)[1] == 0xA5,
        snapshot_bytes(s)[62] == 0xFF,
        snapshot_bytes(s)[63] == 0xFF,
        snapshot_bytes(s).subrange(2, 6) == le_u32(s.seq),
        snapshot_bytes(s).subrange(6, 10) == le_u32(s.flight_mode),
        snapshot_bytes(s).subrange(10, 14) == le_u32(s.cycle_count),
        snapshot_bytes(s).subrange(14, 18) == le_u32(s.pressure),
        snapshot_bytes(s).subrange(18, 22) == le_u32(s.arming_altitude),
        snapshot_bytes(s).subrange(22, 26) == le_u32(s.altitude),
        snapshot_bytes(s).subrange(26, 30) == le_u32(s.mav_open),
        snapshot_bytes(s).subrange(30, 34) == le_u32(s.sv_open),
        snapshot_bytes(s).subrange(34, 38) == le_u32(s.launch_stage),
        snapshot_bytes(s).subrange(38, 42) == le_u32(s.launch_elapsed_ms),
        snapshot_bytes(s).subrange(42, 46) == le_u32(s.blims_upwind_lat),
        snapshot_bytes(s).subrange(46, 50) == le_u32(s.blims_upwind_lon),
        snapshot_bytes(s).subrange(50, 54) == le_u32(s.blims_downwind_lat),
        snapshot_bytes(s).subrange(54, 58) == le_u32(s.blims_downwind_lon),
{
    lemma_snapshot_field_layout(s);
    let body = snapshot_body(s);
    let crc = le_u32(fletcher32(body));
    lemma_u32_roundtrip(fletcher32(body));
    let tail = seq![0xFFu8, 0xFFu8];
    let b = snapshot_bytes(s);
    assert(b == body + crc + tail);
    lemma_range_in_prefix(body + crc, tail, 0, 58);
    lemma_range_in_prefix(body, crc, 0, 58);
    assert(body.subrange(0, 58) =~= body);
    lemma_range_in_prefix(body + crc, tail, 58, 62);
    lemma_range_in_suffix(body, crc, 0, 4);
    assert(crc.subrange(0, 4) =~= crc);
    lemma_range_in_prefix(body + crc, tail, 2, 6);
    lemma_range_in_prefix(body, crc, 2, 6);
    lemma_range_in_suffix(seq![0x5Au8, 0xA5u8], snapshot_field_bytes(s), 0, 4);
    lemma_range_in_prefix(body + crc, tail, 6, 10);
    lemma_range_in_prefix(body, crc, 6, 10);
    lemma_range_in_suffix(seq![0x5Au8, 0xA5u8], snapshot_field_bytes(s), 4, 8);
    lemma_range_in_prefix(body + crc, tail, 10, 14);
    lemma_range_in_prefix(body, crc, 10, 14);
    lemma_range_in_suffix(seq![0x5Au8, 0xA5u8], snapshot_field_bytes(s), 8, 12);
    lemma_range_in_prefix(body + crc, tail, 14, 18);
    lemma_range_in_prefix(body, crc, 14, 18);
    lemma_range_in_suffix(seq![0x5Au8, 0xA5u8], snapshot_field_bytes(s), 12, 16);
    lemma_range_in_prefix(body + crc, tail, 18, 22);
    lemma_range_in_prefix(body, crc, 18, 22);
    lemma_range_in_suffix(seq![0x5Au8, 0xA5u8], snapshot_field_bytes(s), 16, 20);
    lemma_range_in_prefix(body + crc, tail, 22, 26);
    lemma_range_in_prefix(body, crc, 22, 26);
    lemma_range_in_suffix(seq![0x5Au8, 0xA5u8], snapshot_field_bytes(s), 20, 24);
    lemma_range_in_prefix(body + crc, tail, 26, 30);
    lemma_range_in_prefix(body, crc, 26, 30);
    lemma_range_in_suffix(seq![0x5Au8, 0xA5u8], snapshot_field_bytes(s), 24, 28);
    lemma_range_in_prefix(body + crc, tail, 30, 34);
    lemma_range_in_prefix(body, crc, 30, 34);
    lemma_range_in_suffix(seq![0x5Au8, 0xA5u8], snapshot_field_bytes(s), 28, 32);
    lemma_range_in_prefix(body + crc, tail, 34, 38);
    lemma_range_in_prefix(body, crc, 34, 38);
    lemma_range_in_suffix(seq![0x5Au8, 0xA5u8], snapshot_field_bytes(s), 32, 36);
    lemma_range_in_prefix(body + crc, tail, 38, 42);
    lemma_range_in_prefix(body, crc, 38, 42);
    lemma_range_in_suffix(seq![0x5Au8, 0xA5u8], snapshot_field_bytes(s), 36, 40);
    lemma_range_in_prefix(body + crc, tail, 42, 46);
    lemma_range_in_prefix(body, crc, 42, 46);
    lemma_range_in_suffix(seq![0x5Au8, 0xA5u8], snapshot_field_bytes(s), 40, 44);
    lemma_range_in_prefix(body + crc, tail, 46, 50);
    lemma_range_in_prefix(body, crc, 46, 50);
    lemma_range_in_suffix(seq![0x5Au8, 0xA5u8], snapshot_field_bytes(s), 44, 48);
    lemma_range_in_prefix(body + crc, tail, 50, 54);
    lemma_range_in_prefix(body, crc, 50, 54);
    lemma_range_in_suffix(seq![0x5Au8, 0xA5u8], snapshot_field_bytes(s), 48, 52);
    lemma_range_in_prefix(body + crc, tail, 54, 58);
    lemma_range_in_prefix(body, crc, 54, 58);
    lemma_range_in_suffix(seq![0x5Au8, 0xA5u8], snapshot_field_bytes(s), 52, 56);
}

/// Decoding the record of a snapshot gives the snapshot back.
pub proof fn lemma_snapshot_roundtrip(s: Snapshot)
    ensures
        snapshot_from_bytes(snapshot_bytes(s)) == Some(s),
{
    lemma_snapshot_layout(s);
    let b = snapshot_bytes(s);
    lemma_u32_roundtrip(fletcher32(snapshot_body(s)));
    assert(snapshot_record_valid(b));
    lemma_u32_roundtrip(s.seq);
    assert(u32_of(b.subrange(2, 6)) == s.seq);
    lemma_u32_roundtrip(s.flight_mode);
    assert(u32_of(b.subrange(6, 10)) == s.flight_mode);
    lemma_u32_roundtrip(s.cycle_count);
    assert(u32_of(b.subrange(10, 14)) == s.cycle_count);
    lemma_u32_roundtrip(s.pressure);
    assert(u32_of(b.subrange(14, 18)) == s.pressure);
    lemma_u32_roundtrip(s.arming_altitude);
    assert(u32_of(b.subrange(18, 22)) == s.arming_altitude);
    lemma_u32_roundtrip(s.altitude);
    assert(u32_of(b.subrange(22, 26)) == s.altitude);
    lemma_u32_roundtrip(s.mav_open);
    assert(u32_of(b.subrange(26, 30)) == s.mav_open);
    lemma_u32_roundtrip(s.sv_open);
    assert(u32_of(b.subrange(30, 34)) == s.sv_open);
    lemma_u32_roundtrip(s.launch_stage);
    assert(u32_of(b.subrange(34, 38)) == s.launch_stage);
    lemma_u32_roundtrip(s.launch_elapsed_ms);
    assert(u32_of(b.subrange(38, 42)) == s.launch_elapsed_ms);
    lemma_u32_roundtrip(s.blims_upwind_lat);
    assert(u32_of(b.subrange(42, 46)) == s.blims_upwind_lat);
    lemma_u32_roundtrip(s.blims_upwind_lon);
    assert(u32_of(b.subrange(46, 50)) == s.blims_upwind_lon);
    lemma_u32_roundtrip(s.blims_downwind_lat);
    assert(u32_of(b.subrange(50, 54)) == s.blims_downwind_lat);
    lemma_u32_roundtrip(s.blims_downwind_lon);
    assert(u32_of(b.subrange(54, 58)) == s.blims_downwind_lon);
    assert(snapshot_fields_of(b) == s);
}

/// The plain sum of the bytes of `data`.
pub open spec fn byte_sum(data: Seq<u8>) -> int
    decreases data.len(),
{
    if data.len() == 0 {
        0
    } else {
        byte_sum(data.drop_last()) + data.last()
    }
}

proof fn lemma_byte_sum_bound(data: Seq<u8>)
    ensures
        0 <= byte_sum(data) <= 255 * data.len(),
    decreases data.len(),
{
    if data.len() > 0 {
        lemma_byte_sum_bound(data.drop_last());
    }
}

proof fn lemma_byte_sum_update(data: Seq<u8>, i: int, v: u8)
    requires
        0 <= i < data.len(),
    ensures
        byte_sum(data.update(i, v)) == byte_sum(data) - data[i] + v,
    decreases data.len(),
{
    let d2 = data.update(i, v);
    if i == data.len() - 1 {
        assert(d2.drop_last() =~= data.drop_last());
    } else {
        lemma_byte_sum_update(data.drop_last(), i, v);
        assert(d2.drop_last() =~= data.drop_last().update(i, v));
    }
}

/// Over a short record the first running sum of the checksum is the plain
/// byte sum: it never wraps.
proof fn lemma_fletcher_a_is_byte_sum(data: Seq<u8>)
    requires
        data.len() <= 64,
    ensures
        fletcher_sums(data).0 == byte_sum(data),
    decreases data.len(),
{
    if data.len() > 0 {
        lemma_fletcher_a_is_byte_sum(data.drop_last());
        lemma_byte_sum_bound(data.drop_last());
    }
}

proof fn lemma_checksum_low_half(sv: u32, a: u32)
    requires
        a < 0x10000,
    ensures
        ((sv << 16u32) ^ a) & 0xFFFFu32 == a,
{
    assert(((sv << 16u32) ^ a) & 0xFFFFu32 == a) by (bit_vector)
        requires
            a < 0x10000,
    ;
}

/// Flipping any single bit among the first 62 bytes of a snapshot record
/// (magic, fields and stored checksum) makes the record fail its check, so it
/// decodes to nothing.
pub proof fn lemma_snapshot_bit_flip_detected(s: Snapshot, i: int, bit: u32)
    requires
        0 <= i < 62,
        bit < 8,
    ensures
        snapshot_from_bytes(snapshot_bytes(s).update(i, snapshot_bytes(s)[i] ^ (1u8 << bit))) is None,
{
    let b = snapshot_bytes(s);
    lemma_snapshot_layout(s);
    lemma_snapshot_roundtrip(s);
    assert(snapshot_record_valid(b));
    let x = b[i];
    let v: u8 = x ^ (1u8 << bit);
    assert(v != x) by (bit_vector)
        requires
            v == x ^ (1u8 << bit),
            bit < 8,
    ;
    let b2 = b.update(i, v);
    let body = b.subrange(0, 58);
    let tail = b.subrange(58, 62);
    if i < 58 {
        let body2 = body.update(i, v);
        assert(b2.subrange(0, 58) =~= body2);
        assert(b2.subrange(58, 62) =~= tail);
        lemma_fletcher_a_is_byte_sum(body);
        lemma_fletcher_a_is_byte_sum(body2);
        lemma_byte_sum_bound(body);
        lemma_byte_sum_bound(body2);
        lemma_byte_sum_update(body, i, v);
        let (s1, a1) = (fletcher_sums(body).1, fletcher_sums(body).0);
        let (s2, a2) = (fletcher_sums(body2).1, fletcher_sums(body2).0);
        lemma_checksum_low_half(s1, a1);
        lemma_checksum_low_half(s2, a2);
        assert(a1 != a2);
        assert(fletcher32(body) != fletcher32(body2));
        assert(!snapshot_record_valid(b2));
    } else {
        let tail2 = tail.update(i - 58, v);
        assert(b2.subrange(0, 58) =~= body);
        assert(b2.subrange(58, 62) =~= tail2);
        lemma_u32_bytes_roundtrip(tail);
        lemma_u32_bytes_roundtrip(tail2);
        assert(tail2[i - 58] != tail[i - 58]);
        assert(u32_of(tail2) != u32_of(tail));
        assert(!snapshot_record_valid(b2));
    }
}

impl Snapshot {
    /// Serialises the snapshot into its 64-byte ring record.
    pub fn to_bytes(&self) -> (r: [u8; 64])
        ensures
            r@ == snapshot_bytes(*self),
    {
        let mut out: Vec<u8> = Vec::new();
        out.push(0x5Au8);
        out.push(0xA5u8);
        assert(out@ =~= seq![0x5Au8, 0xA5u8]);
        let mut fields: Vec<u8> = Vec::new();
        push_u32(&mut fields, self.seq);
        assert(fields@ =~= le_u32(self.seq));
        push_u32(&mut fields, self.flight_mode);
        push_u32(&mut fields, self.cycle_count);
        push_u32(&mut fields, self.pressure);
        push_u32(&mut fields, self.arming_altitude);
        push_u32(&mut fields, self.altitude);
        push_u32(&mut fields, self.mav_open);
        push_u32(&mut fields, self.sv_open);
        push_u32(&mut fields, self.launch_stage);
        push_u32(&mut fields, self.launch_elapsed_ms);
        push_u32(&mut fields, self.blims_upwind_lat);
        push_u32(&mut fields, self.blims_upwind_lon);
        push_u32(&mut fields, self.blims_downwind_lat);
        push_u32(&mut fields, self.blims_downwind_lon);
        out.append(&mut fields);
        let crc = Self::crc(out.as_slice());
        push_u32(&mut out, crc);
        out.push(0xFFu8);
        out.push(0xFFu8);
        assert(out@ =~= snapshot_bytes(*self));
        proof {
            lemma_snapshot_layout(*self);
        }
        to_array(&out)
    }

    /// Decodes a ring record: `None` unless the magic is present and the
    /// stored checksum matches.
    pub fn from_bytes(b: &[u8; 64]) -> (r: Option<Snapshot>)
        ensures
            r == snapshot_from_bytes(b@),
    {
        let bytes = array_as_slice(b);
        if bytes[0] != 0x5Au8 || bytes[1] != 0xA5u8 {
            return None;
        }
        let stored_crc = read_u32(bytes, 58);
        let body = slice_subrange(bytes, 0, 58);
        if stored_crc != Self::crc(body) {
            return None;
        }
        Some(Snapshot {
            seq: read_u32(bytes, 2),
            flight_mode: read_u32(bytes, 6),
            cycle_count: read_u32(bytes, 10),
            pressure: read_u32(bytes, 14),
            arming_altitude: read_u32(bytes, 18),
            altitude: read_u32(bytes, 22),
            mav_open: read_u32(bytes, 26),
            sv_open: read_u32(bytes, 30),
            launch_stage: read_u32(bytes, 34),
            launch_elapsed_ms: read_u32(bytes, 38),
            blims_upwind_lat: read_u32(bytes, 42),
            blims_upwind_lon: read_u32(bytes, 46),
            blims_downwind_lat: read_u32(bytes, 50),
            blims_downwind_lon: read_u32(bytes, 54),
        })
    }

    /// The checksum stored with each record: a 32-bit Fletcher-style sum over
    /// `data`, `(s << 16) ^ a`.
    pub fn crc(data: &[u8]) -> (r: u32)
        ensures
            r == fletcher32(data@),
    {
        let mut a: u32 = 0;
        let mut s: u32 = 0;
        let mut i: usize = 0;
        while i < data.len()
            invariant
                i <= data@.len(),
                fletcher_sums(data@.subrange(0, i as int)) == (a, s),
            decreases data@.len() - i,
        {
            proof {
                assert(data@.subrange(0, i + 1).drop_last() =~= data@.subrange(0, i as int));
            }
            a = a.wrapping_add(data[i] as u32);
            s = s.wrapping_add(a);
            i += 1;
        }
        assert(data@.subrange(0, data@.len() as int) =~= data@);
        (s << 16u32) ^ a
    }
}

// ---------------------------------------------------------------------------
// Driver state
// ---------------------------------------------------------------------------

/// Whether `addr` is the start of a slot of the snapshot ring.
pub open spec fn ring_slot_addr(addr: u32) -> bool {
    &&& SNAPSHOT_RING_BASE <= addr < SNAPSHOT_RING_BASE + SNAPSHOT_RING_SIZE
    &&& (addr - SNAPSHOT_RING_BASE) % (SNAPSHOT_RECORD_SIZE as int) == 0
}

/// The ring slot after the one at `addr`, wrapping after the last.
pub open spec fn next_ring_slot(addr: u32) -> u32 {
    (SNAPSHOT_RING_BASE + (((addr - SNAPSHOT_RING_BASE) / 64 + 1) % 1024) * 64) as u32
}

/// The ring slot the cursor reaches from `addr` after `k` snapshot writes.
pub open spec fn ring_slot_after(addr: u32, k: nat) -> u32
    decreases k,
{
    if k == 0 { addr } else { next_ring_slot(ring_slot_after(addr, (k - 1) as nat)) }
}

/// The snapshot cursor walks the ring slot by slot: after `k` writes from a
/// slot it stands `k` slots further on, wrapping after the last, so it visits
/// all 1024 slots in turn and is back where it started after 1024 writes.
pub proof fn lemma_ring_cursor_walks_slots(addr: u32, k: nat)
    requires
        ring_slot_addr(addr),
    ensures
        ring_slot_addr(ring_slot_after(addr, k)),
        ring_slot_after(addr, k)
            == SNAPSHOT_RING_BASE + (((addr - SNAPSHOT_RING_BASE) / 64 + k) % 1024) * 64,
    decreases k,
{
    let i = (addr - SNAPSHOT_RING_BASE) / 64;
    if k == 0 {
        assert(addr - SNAPSHOT_RING_BASE == i * 64) by {
            vstd::arithmetic::div_mod::lemma_fundamental_div_mod((addr - SNAPSHOT_RING_BASE) as int, 64);
        }
        assert(i < 1024);
        vstd::arithmetic::div_mod::lemma_small_mod(i as nat, 1024);
    } else {
        lemma_ring_cursor_walks_slots(addr, (k - 1) as nat);
        let j = (i + k - 1) % 1024;
        let prev = ring_slot_after(addr, (k - 1) as nat);
        assert(prev == SNAPSHOT_RING_BASE + j * 64);
        assert(0 <= j < 1024);
        assert((prev - SNAPSHOT_RING_BASE) / 64 == j) by {
            vstd::arithmetic::div_mod::lemma_div_multiples_vanish(j, 64);
        }
        assert((j + 1) % 1024 == (i + k) % 1024) by {
            vstd::arithmetic::div_mod::lemma_add_mod_noop(i + k - 1, 1, 1024);
            vstd::arithmetic::div_mod::lemma_small_mod(1, 1024);
        }
        let j2 = (i + k) % 1024;
        assert(0 <= j2 < 1024);
        assert((j2 * 64) % 64 == 0) by {
            vstd::arithmetic::div_mod::lemma_mod_multiples_basic(j2, 64);
        }
    }
}

/// The sequence number that follows `seq`: one more, wrapping, and skipping
/// the empty-slot marker.
pub open spec fn next_seq(seq: u32) -> u32 {
    let n = ((seq + 1) % 4294967296) as u32;
    if n == SNAPSHOT_EMPTY_SEQ { 1 } else { n }
}

/// Bookkeeping of the flash driver: where the next log byte goes and where
/// the next snapshot goes.
pub struct OnboardFlash {
    write_offset: u32,
    /// The chip answered its JEDEC ID; snapshot reads and writes are gated on this.
    pub flash_ok: bool,
    /// The data-log region is exhausted (the snapshot ring is separate and still works).
    pub storage_full: bool,
    snapshot_offset: u32,
    snapshot_next_seq: u32,
}

impl OnboardFlash {
    /// The log append position lies in the data-log region and the snapshot
    /// cursor on a ring slot.
    pub closed spec fn wf(&self) -> bool {
        &&& STORAGE_OFFSET <= self.write_offset <= STORAGE_END
        &&& ring_slot_addr(self.snapshot_offset)
    }

    /// Flash address at which the next log byte is written.
    pub closed spec fn log_offset(&self) -> u32 {
        self.write_offset
    }

    /// Flash address of the ring slot the next snapshot is written to.
    pub closed spec fn ring_offset(&self) -> u32 {
        self.snapshot_offset
    }

    /// Sequence number the next snapshot gets.
    pub closed spec fn ring_next_seq(&self) -> u32 {
        self.snapshot_next_seq
    }

    /// The value of `flash_ok`.
    pub closed spec fn chip_ok(&self) -> bool {
        self.flash_ok
    }

    /// The value of `storage_full`.
    pub closed spec fn log_full(&self) -> bool {
        self.storage_full
    }

    /// A driver with an empty log and an empty ring; the chip is not yet probed.
    pub fn new() -> (r: OnboardFlash)
        ensures
            r.wf(),
            r.log_offset() == STORAGE_OFFSET,
            r.ring_offset() == SNAPSHOT_RING_BASE,
            r.ring_next_seq() == 1,
            !r.chip_ok(),
            !r.log_full(),
    {
        OnboardFlash {
            write_offset: STORAGE_OFFSET,
            flash_ok: false,
            storage_full: false,
            snapshot_offset: SNAPSHOT_RING_BASE,
            snapshot_next_seq: 1,
        }
    }

    /// Flash address at which the next log byte is written.
    pub fn get_write_offset(&self) -> (r: u32)
        ensures
            r == self.log_offset(),
            self.wf() ==> STORAGE_OFFSET <= r <= STORAGE_END,
    {
        self.write_offset
    }

    /// Start of the data-log region.
    pub fn get_storage_offset(&self) -> (r: u32)
        ensures
            r == STORAGE_OFFSET,
    {
        STORAGE_OFFSET
    }

    /// Bytes used in the data-log region, and its size.
    pub fn get_usage(&self) -> (r: (u32, u32))
        ensures
            r == (if self.log_offset() >= STORAGE_OFFSET {
                (self.log_offset() - STORAGE_OFFSET) as u32
            } else {
                0u32
            }, STORAGE_SIZE),
            self.wf() ==> r.0 <= STORAGE_SIZE,
    {
        (self.write_offset.saturating_sub(STORAGE_OFFSET), STORAGE_SIZE)
    }

    /// Every state the driver reaches keeps the log position inside the
    /// data-log region, so the bytes used never exceed its size, and the
    /// snapshot cursor on a ring slot.
    pub proof fn lemma_offsets_in_range(&self)
        requires
            self.wf(),
        ensures
            STORAGE_OFFSET <= self.log_offset() <= STORAGE_END,
            self.log_offset() - STORAGE_OFFSET <= STORAGE_SIZE,
            ring_slot_addr(self.ring_offset()),
    {
    }

    /// Flash address of the ring slot the next snapshot is written to.
    pub fn snapshot_offset(&self) -> (r: u32)
        ensures
            r == self.ring_offset(),
    {
        self.snapshot_offset
    }

    /// Sequence number the next snapshot gets.
    pub fn snapshot_next_seq(&self) -> (r: u32)
        ensures
            r == self.ring_next_seq(),
    {
        self.snapshot_next_seq
    }

    /// Ends the start-up scan of the log at `offset`: the log resumes there,
    /// and a log that reaches the end of the region is full.
    pub fn finish_log_scan(&mut self, offset: u32) -> (r: Result<(), Error>)
        requires
            old(self).wf(),
            STORAGE_OFFSET <= offset <= STORAGE_END,
        ensures
            final(self).wf(),
            final(self).log_offset() == offset,
            final(self).ring_offset() == old(self).ring_offset(),
            final(self).ring_next_seq() == old(self).ring_next_seq(),
            final(self).chip_ok() == old(self).chip_ok(),
            final(self).log_full() == old(self).log_full(),
            r == (if offset >= STORAGE_END { Err::<(), Error>(Error::StorageFull) } else { Ok(()) }),
    {
        self.write_offset = offset;
        if self.write_offset >= STORAGE_END {
            return Err(Error::StorageFull);
        }
        Ok(())
    }
}

// ---------------------------------------------------------------------------
// Finding the end of the log after a reset
// ---------------------------------------------------------------------------

/// The page probed next by the search over `[low, high]`.
pub open spec fn scan_mid(low: int, high: int) -> int {
    low + ((high - low) / 512) * 256
}

/// Where the search over `[low, high]` ends when every page at or past
/// `boundary` reads erased and every page before it does not.
pub open spec fn scan_run(low: int, high: int, boundary: int) -> int
    decreases high - low + 256,
{
    if low > high || low < 0 {
        low
    } else {
        let mid = scan_mid(low, high);
        if mid >= boundary {
            if mid == STORAGE_OFFSET {
                STORAGE_OFFSET as int
            } else {
                scan_run(low, mid - 256, boundary)
            }
        } else {
            scan_run(mid + 256, high, boundary)
        }
    }
}

/// Binary search for the first erased page of the data log, one page read at
/// a time: the caller reads the page that [`LogScan::probe`] names and tells
/// [`LogScan::observe`] whether it was erased.
pub struct LogScan {
    low: u32,
    high: u32,
}

impl LogScan {
    /// Lower end of the pages still in question.
    pub closed spec fn low(&self) -> int {
        self.low as int
    }

    /// Upper end of the pages still in question.
    pub closed spec fn high(&self) -> int {
        self.high as int
    }

    /// Both ends are page addresses of the log region; the range may be empty.
    pub open spec fn wf(&self) -> bool {
        &&& STORAGE_OFFSET <= self.low() <= self.high() + 256
        &&& STORAGE_OFFSET <= self.high() <= STORAGE_END - 256
        &&& self.low() % 256 == 0
        &&& self.high() % 256 == 0
    }

    /// A search over every page of the log region.
    pub fn new() -> (r: LogScan)
        ensures
            r.wf(),
            r.low() == STORAGE_OFFSET,
            r.high() == STORAGE_END - PAGE_SIZE,
    {
        LogScan { low: STORAGE_OFFSET, high: STORAGE_END - PAGE_SIZE }
    }

    /// The page to read next, or `None` when the search is over.
    pub fn probe(&self) -> (r: Option<u32>)
        requires
            self.wf(),
        ensures
            r == (if self.low() <= self.high() {
                Some(scan_mid(self.low(), self.high()) as u32)
            } else {
                None
            }),
    {
        if self.low <= self.high {
            Some(self.low + ((self.high - self.low) / (2 * PAGE_SIZE)) * PAGE_SIZE)
        } else {
            None
        }
    }

    /// Takes the answer for the probed page. An erased first page ends the
    /// search at once with the start of the region; otherwise the range
    /// shrinks to the half that still holds the end of the log.
    pub fn observe(&mut self, erased: bool) -> (r: Option<u32>)
        requires
            old(self).wf(),
            old(self).low() <= old(self).high(),
        ensures
            final(self).wf(),
            ({
                let mid = scan_mid(old(self).low(), old(self).high());
                if erased && mid == STORAGE_OFFSET {
                    &&& r == Some(STORAGE_OFFSET)
                    &&& final(self).low() == old(self).low()
                    &&& final(self).high() == old(self).high()
                } else if erased {
                    &&& r is None
                    &&& final(self).low() == old(self).low()
                    &&& final(self).high() == mid - 256
                } else {
                    &&& r is None
                    &&& final(self).low() == mid + 256
                    &&& final(self).high() == old(self).high()
                }
            }),
    {
        let mid = self.low + ((self.high - self.low) / (2 * PAGE_SIZE)) * PAGE_SIZE;
        proof {
            lemma_scan_mid(self.low(), self.high());
        }
        if erased {
            if mid == STORAGE_OFFSET {
                return Some(STORAGE_OFFSET);
            }
            self.high = mid - PAGE_SIZE;
        } else {
            self.low = mid + PAGE_SIZE;
        }
        None
    }

    /// The first erased page once the search is over.
    pub fn end(&self) -> (r: u32)
        requires
            self.wf(),
        ensures
            r == self.low(),
            STORAGE_OFFSET <= r <= STORAGE_END,
    {
        self.low
    }
}

/// The log search finds the end of the log: for every page-aligned boundary
/// in the log region, answering each probe with whether the page lies at or
/// past the boundary makes the search end exactly at the boundary.
pub proof fn lemma_log_scan_finds_boundary(boundary: int)
    requires
        STORAGE_OFFSET <= boundary <= STORAGE_END,
        boundary % 256 == 0,
    ensures
        scan_run(STORAGE_OFFSET as int, STORAGE_END - 256, boundary) == boundary,
{
    lemma_scan_run_brackets(STORAGE_OFFSET as int, STORAGE_END - 256, boundary);
}

/// The probed page lies in the range and on a page boundary.
proof fn lemma_scan_mid(low: int, high: int)
    requires
        low % 256 == 0,
        low <= high,
    ensures
        low <= scan_mid(low, high) <= high,
        scan_mid(low, high) % 256 == 0,
{
    let k = (high - low) / 512;
    assert(0 <= k);
    assert(512 * k <= high - low);
    assert(scan_mid(low, high) == low + k * 256);
    assert((low + k * 256) % 256 == 0) by {
        vstd::arithmetic::div_mod::lemma_mod_multiples_vanish(k, low, 256);
    }
}

proof fn lemma_scan_run_brackets(low: int, high: int, boundary: int)
    requires
        STORAGE_OFFSET <= low,
        low % 256 == 0,
        high % 256 == 0,
        boundary % 256 == 0,
        low <= boundary <= high + 256,
    ensures
        scan_run(low, high, boundary) == boundary,
    decreases high - low + 256,
{
    if low > high {
    } else {
        let mid = scan_mid(low, high);
        lemma_scan_mid(low, high);
        if mid >= boundary {
            if mid == STORAGE_OFFSET {
            } else {
                lemma_scan_run_brackets(low, mid - 256, boundary);
            }
        } else {
            assert(mid + 256 <= boundary);
            lemma_scan_run_brackets(mid + 256, high, boundary);
        }
    }
}

// ---------------------------------------------------------------------------
// Appending to the log
// ---------------------------------------------------------------------------

/// One page program of an append: `len` bytes of the data, starting at byte
/// `start` of it, go to flash address `addr`; the sector is erased first when
/// `addr` starts one.
#[derive(Clone, Copy, Debug, PartialEq, Eq, Structural)]
pub struct AppendChunk {
    pub erase_first: bool,
    pub addr: u32,
    pub start: usize,
    pub len: usize,
}

/// The page programs that write `remaining` bytes, data offset `start`
/// onwards, at flash address `addr`: each fills what is left of its page.
pub open spec fn append_chunks(addr: nat, start: nat, remaining: nat) -> Seq<AppendChunk>
    decreases remaining,
{
    if remaining == 0 {
        Seq::empty()
    } else {
        let room = (256 - addr % 256) as nat;
        let len = if remaining < room { remaining } else { room };
        seq![AppendChunk { erase_first: addr % 4096 == 0, addr: addr as u32, start: start as usize, len: len as usize }]
            + append_chunks(addr + len, start + len, (remaining - len) as nat)
    }
}

impl OnboardFlash {
    /// Plans the append of `len` bytes at the end of the log: the page
    /// programs to perform in order, or `StorageFull` when the data does not
    /// fit in what is left of the region. Nothing is planned for no data.
    pub fn plan_append(&self, len: usize) -> (r: Result<Vec<AppendChunk>, Error>)
        requires
            self.wf(),
            len <= u32::MAX,
        ensures
            match r {
                Ok(chunks) => {
                    &&& (len == 0 || self.log_offset() + len <= STORAGE_END)
                    &&& chunks@ == append_chunks(self.log_offset() as nat, 0, len as nat)
                },
                Err(e) => {
                    &&& e == Error::StorageFull
                    &&& len > 0
                    &&& self.log_offset() + len > STORAGE_END
                },
            },
    {
        let mut chunks: Vec<AppendChunk> = Vec::new();
        if len == 0 {
            return Ok(chunks);
        }
        if self.write_offset as u64 + len as u64 > STORAGE_END as u64 {
            return Err(Error::StorageFull);
        }
        let mut addr: u32 = self.write_offset;
        let mut start: usize = 0;
        while start < len
            invariant
                start <= len,
                addr == self.log_offset() + start,
                self.log_offset() + len <= STORAGE_END,
                chunks@ + append_chunks(addr as nat, start as nat, (len - start) as nat)
                    == append_chunks(self.log_offset() as nat, 0, len as nat),
            decreases len - start,
        {
            let room = (PAGE_SIZE - addr % PAGE_SIZE) as usize;
            let n = if len - start < room { len - start } else { room };
            let chunk = AppendChunk { erase_first: addr % SECTOR_SIZE == 0, addr, start, len: n };
            let ghost before = chunks@;
            proof {
                let rest = append_chunks((addr + n) as nat, (start + n) as nat, (len - start - n) as nat);
                assert(append_chunks(addr as nat, start as nat, (len - start) as nat) == seq![chunk] + rest);
                assert(before.push(chunk) + rest =~= before + (seq![chunk] + rest));
            }
            chunks.push(chunk);
            addr = addr + n as u32;
            start = start + n;
        }
        assert(chunks@ + append_chunks(addr as nat, start as nat, 0) =~= chunks@);
        Ok(chunks)
    }

    /// Records that `len` more bytes of the log have been programmed.
    pub fn advance_write_offset(&mut self, len: usize)
        requires
            old(self).wf(),
            old(self).log_offset() + len <= STORAGE_END,
        ensures
            final(self).wf(),
            final(self).log_offset() == old(self).log_offset() + len,
            final(self).ring_offset() == old(self).ring_offset(),
            final(self).ring_next_seq() == old(self).ring_next_seq(),
            final(self).chip_ok() == old(self).chip_ok(),
            final(self).log_full() == old(self).log_full(),
    {
        self.write_offset = self.write_offset + len as u32;
    }
}

/// The page programs of an append tile the written range: they start at the
/// append position and follow one another, each is non-empty and stays inside
/// one page, each takes the data bytes that match its address, and a sector is
/// erased exactly when a program starts it.
pub proof fn lemma_append_chunks_tile(addr: nat, start: nat, remaining: nat)
    requires
        addr + remaining <= u32::MAX,
        start + remaining <= usize::MAX,
    ensures
        ({
            let c = append_chunks(addr, start, remaining);
            &&& remaining == 0 <==> c.len() == 0
            &&& remaining > 0 ==> c[0].addr == addr
            &&& remaining > 0 ==> c.last().addr + c.last().len == addr + remaining
            &&& forall|i: int| 0 <= i < c.len() ==> {
                &&& #[trigger] c[i].len > 0
                &&& c[i].addr % 256 + c[i].len <= 256
                &&& c[i].start == c[i].addr - addr + start
                &&& c[i].erase_first == (c[i].addr % 4096 == 0)
            }
            &&& forall|i: int| 0 <= i < c.len() - 1 ==> #[trigger] c[i + 1].addr == c[i].addr + c[i].len
        }),
    decreases remaining,
{
    if remaining > 0 {
        let room = (256 - addr % 256) as nat;
        let len = if remaining < room { remaining } else { room };
        lemma_append_chunks_tile(addr + len, start + len, (remaining - len) as nat);
        let c = append_chunks(addr, start, remaining);
        let rest = append_chunks(addr + len, start + len, (remaining - len) as nat);
        assert(c == seq![c[0]] + rest);
        assert forall|i: int| 0 <= i < c.len() - 1 implies #[trigger] c[i + 1].addr == c[i].addr + c[i].len by {
            assert(c[i + 1] == rest[i]);
            if i > 0 {
                assert(c[i] == rest[i - 1]);
                let j = i - 1;
                assert(rest[j + 1].addr == rest[j].addr + rest[j].len);
            } else {
                assert(remaining - len > 0);
                assert(rest[0].addr == addr + len);
                assert(c[0].addr == addr);
                assert(c[0].len == len);
            }
        }
        assert forall|i: int| 0 <= i < c.len() implies {
            &&& #[trigger] c[i].len > 0
            &&& c[i].addr % 256 + c[i].len <= 256
            &&& c[i].start == c[i].addr - addr + start
            &&& c[i].erase_first == (c[i].addr % 4096 == 0)
        } by {
            if i > 0 {
                assert(c[i] == rest[i - 1]);
            }
        }
        if remaining - len > 0 {
            assert(c.last() == rest.last());
        }
    }
}

/// The bytes of a log record holding a high-rate record: its tag, then its payload.
pub fn encode_fast_record(fast: &FastRecord) -> (r: Vec<u8>)
    ensures
        r@ == seq![FAST_RECORD_TAG] + fast_record_bytes(*fast),
{
    let payload = fast.to_bytes();
    let mut r: Vec<u8> = Vec::new();
    r.push(FAST_RECORD_TAG);
    let mut i: usize = 0;
    while i < 92
        invariant
            i <= 92,
            payload@.len() == 92,
            r@ == seq![FAST_RECORD_TAG] + payload@.subrange(0, i as int),
        decreases 92 - i,
    {
        r.push(payload[i]);
        i += 1;
        assert(r@ =~= seq![FAST_RECORD_TAG] + payload@.subrange(0, i as int));
    }
    assert(payload@.subrange(0, 92) =~= payload@);
    r
}

/// The bytes of a log record holding a full packet: its tag, then the packet.
pub fn encode_full_record(packet: &Packet) -> (r: Vec<u8>)
    ensures
        r@ == seq![FULL_RECORD_TAG] + packet_bytes(*packet),
{
    let payload = packet.to_bytes();
    let mut r: Vec<u8> = Vec::new();
    r.push(FULL_RECORD_TAG);
    let mut i: usize = 0;
    while i < 193
        invariant
            i <= 193,
            payload@.len() == 193,
            r@ == seq![FULL_RECORD_TAG] + payload@.subrange(0, i as int),
        decreases 193 - i,
    {
        r.push(payload[i]);
        i += 1;
        assert(r@ =~= seq![FULL_RECORD_TAG] + payload@.subrange(0, i as int));
    }
    assert(payload@.subrange(0, 193) =~= payload@);
    r
}

// ---------------------------------------------------------------------------
// The snapshot ring
// ---------------------------------------------------------------------------

/// The sequence number a ring slot holds, if it holds one: the magic must be
/// present and the sequence must not be the empty marker.
pub open spec fn record_seq(rec: Seq<u8>) -> Option<u32> {
    if rec[0] == 0x5A && rec[1] == 0xA5 && u32_of(rec.subrange(2, 6)) != SNAPSHOT_EMPTY_SEQ {
        Some(u32_of(rec.subrange(2, 6)))
    } else {
        None
    }
}

/// One slot of the start-up ring scan: a slot with a sequence number at least
/// the largest seen so far becomes the newest.
pub open spec fn ring_scan_step(max_seq: u32, max_slot: Option<u32>, slot: u32, rec: Seq<u8>) -> (u32, Option<u32>) {
    match record_seq(rec) {
        Some(seq) => if seq >= max_seq { (seq, Some(slot)) } else { (max_seq, max_slot) },
        None => (max_seq, max_slot),
    }
}

/// The ring scan over the slots `recs[0..]`, in order.
pub open spec fn ring_scan(recs: Seq<Seq<u8>>) -> (u32, Option<u32>)
    decreases recs.len(),
{
    if recs.len() == 0 {
        (0, None)
    } else {
        let (m, s) = ring_scan(recs.drop_last());
        ring_scan_step(m, s, (recs.len() - 1) as u32, recs.last())
    }
}

/// Start-up scan of the snapshot ring for the newest record, one slot at a time.
pub struct RingScan {
    max_seq: u32,
    max_slot: Option<u32>,
}

impl RingScan {
    /// Largest sequence number seen so far.
    pub closed spec fn max_seq(&self) -> u32 {
        self.max_seq
    }

    /// Slot that holds it.
    pub closed spec fn max_slot(&self) -> Option<u32> {
        self.max_slot
    }

    /// The slot found, if any, is a slot of the ring.
    pub open spec fn wf(&self) -> bool {
        self.max_slot() matches Some(s) ==> s < SNAPSHOT_SLOT_COUNT
    }

    /// A scan that has seen no slot.
    pub fn new() -> (r: RingScan)
        ensures
            r.wf(),
            r.max_seq() == 0,
            r.max_slot() is None,
    {
        RingScan { max_seq: 0, max_slot: None }
    }

    /// Takes the record read from ring slot `slot`.
    pub fn observe(&mut self, slot: u32, rec: &[u8])
        requires
            old(self).wf(),
            slot < SNAPSHOT_SLOT_COUNT,
            rec@.len() >= 6,
        ensures
            final(self).wf(),
            (final(self).max_seq(), final(self).max_slot())
                == ring_scan_step(old(self).max_seq(), old(self).max_slot(), slot, rec@),
    {
        if rec[0] != 0x5Au8 || rec[1] != 0xA5u8 {
            return;
        }
        let seq = read_u32(rec, 2);
        if seq == SNAPSHOT_EMPTY_SEQ {
            return;
        }
        if seq >= self.max_seq {
            self.max_seq = seq;
            self.max_slot = Some(slot);
        }
    }
}

impl OnboardFlash {
    /// Ends the start-up ring scan: the next snapshot goes to the slot after
    /// the newest record with the sequence number after it, or to the first
    /// slot with sequence number 1 when the ring holds no record.
    pub fn finish_ring_scan(&mut self, scan: &RingScan)
        requires
            old(self).wf(),
            scan.wf(),
        ensures
            final(self).wf(),
            final(self).log_offset() == old(self).log_offset(),
            final(self).chip_ok() == old(self).chip_ok(),
            final(self).log_full() == old(self).log_full(),
            match scan.max_slot() {
                None => {
                    &&& final(self).ring_offset() == SNAPSHOT_RING_BASE
                    &&& final(self).ring_next_seq() == 1
                },
                Some(slot) => {
                    &&& final(self).ring_offset() == SNAPSHOT_RING_BASE + ((slot + 1) % 1024) * 64
                    &&& final(self).ring_next_seq() == ((scan.max_seq() + 1) % 4294967296) as u32
                },
            },
    {
        match scan.max_slot {
            None => {
                self.snapshot_offset = SNAPSHOT_RING_BASE;
                self.snapshot_next_seq = 1;
            },
            Some(slot) => {
                let next_slot = (slot + 1) % SNAPSHOT_SLOT_COUNT;
                self.snapshot_offset = SNAPSHOT_RING_BASE + next_slot * SNAPSHOT_RECORD_SIZE;
                self.snapshot_next_seq = scan.max_seq.wrapping_add(1);
            },
        }
    }
}

/// The ring scan finds the newest record: it finds no slot exactly when no
/// slot holds a sequence number, and otherwise a slot holding the largest
/// sequence number, the last such slot.
pub proof fn lemma_ring_scan_finds_newest(recs: Seq<Seq<u8>>)
    requires
        recs.len() <= SNAPSHOT_SLOT_COUNT,
    ensures
        ({
            let (m, s) = ring_scan(recs);
            &&& (s is None <==> forall|j: int| 0 <= j < recs.len() ==> #[trigger] record_seq(recs[j]) is None)
            &&& s matches Some(k) ==> {
                &&& k < recs.len()
                &&& record_seq(recs[k as int]) == Some(m)
                &&& forall|j: int| 0 <= j < recs.len() ==> (#[trigger] record_seq(recs[j]) matches Some(q) ==> q <= m)
                &&& forall|j: int| k < j < recs.len() ==> #[trigger] record_seq(recs[j]) != Some(m)
            }
        }),
    decreases recs.len(),
{
    if recs.len() > 0 {
        let prev = recs.drop_last();
        lemma_ring_scan_finds_newest(prev);
        let n = recs.len() - 1;
        assert forall|j: int| 0 <= j < n implies recs[j] == prev[j] by {}
        let (m0, s0) = ring_scan(prev);
        if s0 is None {
            assert(m0 == 0) by {
                lemma_ring_scan_none_is_zero(prev);
            }
        }
    }
}

proof fn lemma_ring_scan_none_is_zero(recs: Seq<Seq<u8>>)
    ensures
        ring_scan(recs).1 is None ==> ring_scan(recs).0 == 0,
    decreases recs.len(),
{
    if recs.len() > 0 {
        lemma_ring_scan_none_is_zero(recs.drop_last());
    }
}

/// One slot of the newest-snapshot read: a valid snapshot replaces the best
/// one so far when its sequence number is strictly larger.
pub open spec fn latest_snapshot_step(best: Option<Snapshot>, rec: Seq<u8>) -> Option<Snapshot> {
    match snapshot_from_bytes(rec) {
        Some(snap) => if snap.seq != SNAPSHOT_EMPTY_SEQ && (best matches Some(b) ==> snap.seq > b.seq) {
            Some(snap)
        } else {
            best
        },
        None => best,
    }
}

/// Reading the newest valid snapshot out of the ring, one record at a time.
pub struct LatestSnapshot {
    best: Option<Snapshot>,
}

impl LatestSnapshot {
    /// The best snapshot found so far.
    pub closed spec fn best_spec(&self) -> Option<Snapshot> {
        self.best
    }

    /// Nothing found yet.
    pub fn new() -> (r: LatestSnapshot)
        ensures
            r.best_spec() is None,
    {
        LatestSnapshot { best: None }
    }

    /// Takes the next ring record.
    pub fn observe(&mut self, rec: &[u8; 64])
        ensures
            final(self).best_spec() == latest_snapshot_step(old(self).best_spec(), rec@),
    {
        if let Some(snap) = Snapshot::from_bytes(rec) {
            let newer = match self.best {
                Some(b) => snap.seq > b.seq,
                None => true,
            };
            if snap.seq != SNAPSHOT_EMPTY_SEQ && newer {
                self.best = Some(snap);
            }
        }
    }

    /// The newest valid snapshot seen.
    pub fn best(&self) -> (r: Option<Snapshot>)
        ensures
            r == self.best_spec(),
    {
        self.best
    }
}

/// A snapshot written to the ring is what start-up recovers: its record
/// decodes back to it, the ring scan reads its sequence number, and it
/// replaces any snapshot recovered so far that has an older sequence number.
pub proof fn lemma_written_snapshot_recovered(s: Snapshot, best: Option<Snapshot>)
    requires
        s.seq != SNAPSHOT_EMPTY_SEQ,
        best matches Some(b) ==> b.seq < s.seq,
    ensures
        snapshot_from_bytes(snapshot_bytes(s)) == Some(s),
        record_seq(snapshot_bytes(s)) == Some(s.seq),
        latest_snapshot_step(best, snapshot_bytes(s)) == Some(s),
{
    lemma_snapshot_roundtrip(s);
    lemma_snapshot_layout(s);
    lemma_u32_roundtrip(s.seq);
}

/// The sequence number of the snapshot a ring record holds, if it holds one:
/// a record that passes the magic and checksum checks, with a sequence
/// number other than the erased value.
pub open spec fn stored_snapshot_seq(rec: Seq<u8>) -> Option<u32> {
    match snapshot_from_bytes(rec) {
        Some(snap) => if snap.seq != SNAPSHOT_EMPTY_SEQ { Some(snap.seq) } else { None },
        None => None,
    }
}

/// The newest-snapshot read over the whole ring: the records taken in slot
/// order, each through one `LatestSnapshot::observe` step.
pub open spec fn latest_snapshot(recs: Seq<Seq<u8>>) -> Option<Snapshot>
    decreases recs.len(),
{
    if recs.len() == 0 {
        None
    } else {
        latest_snapshot_step(latest_snapshot(recs.drop_last()), recs.last())
    }
}

/// The newest-snapshot read finds nothing exactly when no record holds a
/// snapshot; otherwise it finds the snapshot of the record with the largest
/// sequence number, the first such record when several share it.
pub proof fn lemma_latest_snapshot_is_newest(recs: Seq<Seq<u8>>)
    ensures
        latest_snapshot(recs) is None <==> forall|j: int|
            0 <= j < recs.len() ==> #[trigger] stored_snapshot_seq(recs[j]) is None,
        latest_snapshot(recs) matches Some(s) ==> {
            &&& s.seq != SNAPSHOT_EMPTY_SEQ
            &&& forall|j: int| 0 <= j < recs.len() ==>
                (#[trigger] stored_snapshot_seq(recs[j]) matches Some(q) ==> q <= s.seq)
            &&& exists|k: int| 0 <= k < recs.len() && #[trigger] snapshot_from_bytes(recs[k]) == Some(s)
                && forall|j: int| 0 <= j < k ==>
                    (#[trigger] stored_snapshot_seq(recs[j]) matches Some(q) ==> q < s.seq)
        },
    decreases recs.len(),
{
    if recs.len() > 0 {
        let prev = recs.drop_last();
        let n = recs.len() - 1;
        let r = recs.last();
        lemma_latest_snapshot_is_newest(prev);
        assert forall|j: int| 0 <= j < n implies recs[j] == prev[j] by {}
        assert(r == recs[n]);
        let best = latest_snapshot(prev);
        match best {
            Some(b) => {
                let k = choose|k: int| 0 <= k < prev.len() && #[trigger] snapshot_from_bytes(prev[k]) == Some(b)
                    && forall|j: int| 0 <= j < k ==>
                        (#[trigger] stored_snapshot_seq(prev[j]) matches Some(q) ==> q < b.seq);
                assert(snapshot_from_bytes(recs[k]) == Some(b));
                assert forall|j: int| 0 <= j < k implies
                    (#[trigger] stored_snapshot_seq(recs[j]) matches Some(q) ==> q < b.seq) by {
                    assert(recs[j] == prev[j]);
                }
                let kept = match snapshot_from_bytes(r) {
                    Some(snap) => !(snap.seq != SNAPSHOT_EMPTY_SEQ && snap.seq > b.seq),
                    None => true,
                };
                if kept {
                    assert(stored_snapshot_seq(recs[n]) matches Some(q) ==> q <= b.seq);
                    assert forall|j: int| 0 <= j < recs.len() implies
                        (#[trigger] stored_snapshot_seq(recs[j]) matches Some(q) ==> q <= b.seq) by {
                        if j < n {
                            assert(recs[j] == prev[j]);
                        }
                    }
                }
                match snapshot_from_bytes(r) {
                    Some(snap) => {
                        if snap.seq != SNAPSHOT_EMPTY_SEQ && snap.seq > b.seq {
                            assert(snapshot_from_bytes(recs[n]) == Some(snap));
                            assert forall|j: int| 0 <= j < n implies
                                (#[trigger] stored_snapshot_seq(recs[j]) matches Some(q) ==> q < snap.seq) by {
                                assert(recs[j] == prev[j]);
                            }
                            assert forall|j: int| 0 <= j < recs.len() implies
                                (#[trigger] stored_snapshot_seq(recs[j]) matches Some(q) ==> q <= snap.seq) by {
                                if j < n {
                                    assert(recs[j] == prev[j]);
                                }
                            }
                        }
                    },
                    None => {},
                }
            },
            None => {
                assert forall|j: int| 0 <= j < n implies #[trigger] stored_snapshot_seq(recs[j]) is None by {
                    assert(recs[j] == prev[j]);
                }
                match snapshot_from_bytes(r) {
                    Some(snap) => {
                        if snap.seq != SNAPSHOT_EMPTY_SEQ {
                            assert(snapshot_from_bytes(recs[n]) == Some(snap));
                            assert(stored_snapshot_seq(recs[n]) == Some(snap.seq));
                            assert forall|j: int| 0 <= j < recs.len() implies
                                (#[trigger] stored_snapshot_seq(recs[j]) matches Some(q) ==> q <= snap.seq) by {
                                if j < n {
                                    assert(stored_snapshot_seq(recs[j]) is None);
                                }
                            }
                        } else {
                            assert(stored_snapshot_seq(recs[n]) is None);
                        }
                    },
                    None => {
                        assert(stored_snapshot_seq(recs[n]) is None);
                    },
                }
            },
        }
    }
}

/// Start-up recovers a written snapshot: when one slot holds the record of
/// `s` and every other record that holds a snapshot has an older sequence
/// number, the newest-snapshot read over the ring gives `s`.
pub proof fn lemma_ring_recovers_written_snapshot(recs: Seq<Seq<u8>>, k: int, s: Snapshot)
    requires
        s.seq != SNAPSHOT_EMPTY_SEQ,
        0 <= k < recs.len(),
        recs[k] == snapshot_bytes(s),
        forall|j: int| 0 <= j < recs.len() && j != k ==>
            (#[trigger] stored_snapshot_seq(recs[j]) matches Some(q) ==> q < s.seq),
    ensures
        latest_snapshot(recs) == Some(s),
{
    lemma_snapshot_roundtrip(s);
    assert(stored_snapshot_seq(recs[k]) == Some(s.seq));
    lemma_latest_snapshot_is_newest(recs);
    let t = latest_snapshot(recs).unwrap();
    let k2 = choose|k2: int| 0 <= k2 < recs.len() && #[trigger] snapshot_from_bytes(recs[k2]) == Some(t)
        && forall|j: int| 0 <= j < k2 ==>
            (#[trigger] stored_snapshot_seq(recs[j]) matches Some(q) ==> q < t.seq);
    assert(stored_snapshot_seq(recs[k2]) == Some(t.seq));
    if k2 != k {
        assert(t.seq < s.seq);
        assert(stored_snapshot_seq(recs[k]) matches Some(q) ==> q <= t.seq);
        assert(false);
    }
}

/// The single page program (preceded by a sector erase when the slot starts
/// a sector) that stores one snapshot.
pub struct SnapshotWrite {
    pub erase_sector: bool,
    pub addr: u32,
    pub record: [u8; 64],
}

impl OnboardFlash {
    /// Stamps `snap` with the next sequence number and gives the write that
    /// stores it in the current ring slot.
    pub fn prepare_snapshot_write(&self, snap: &mut Snapshot) -> (w: SnapshotWrite)
        requires
            self.wf(),
        ensures
            *final(snap) == (Snapshot { seq: self.ring_next_seq(), ..*old(snap) }),
            w.addr == self.ring_offset(),
            w.erase_sector == (self.ring_offset() % 4096 == 0),
            w.record@ == snapshot_bytes(*final(snap)),
    {
        snap.seq = self.snapshot_next_seq;
        let record = snap.to_bytes();
        SnapshotWrite {
            erase_sector: self.snapshot_offset % SECTOR_SIZE == 0,
            addr: self.snapshot_offset,
            record,
        }
    }

    /// Records that the prepared snapshot was written: the cursor moves to the
    /// next slot, wrapping, and the sequence number advances, skipping the
    /// empty marker.
    pub fn complete_snapshot_write(&mut self)
        requires
            old(self).wf(),
        ensures
            final(self).wf(),
            final(self).ring_offset() == next_ring_slot(old(self).ring_offset()),
            final(self).ring_next_seq() == next_seq(old(self).ring_next_seq()),
            final(self).ring_next_seq() != SNAPSHOT_EMPTY_SEQ,
            final(self).log_offset() == old(self).log_offset(),
            final(self).chip_ok() == old(self).chip_ok(),
            final(self).log_full() == old(self).log_full(),
    {
        let next_idx = ((self.snapshot_offset - SNAPSHOT_RING_BASE) / SNAPSHOT_RECORD_SIZE + 1) % SNAPSHOT_SLOT_COUNT;
        self.snapshot_offset = SNAPSHOT_RING_BASE + next_idx * SNAPSHOT_RECORD_SIZE;
        self.snapshot_next_seq = self.snapshot_next_seq.wrapping_add(1);
        if self.snapshot_next_seq == SNAPSHOT_EMPTY_SEQ {
            self.snapshot_next_seq = 1;
        }
    }

    /// The sectors of the snapshot ring, in address order.
    pub fn snapshot_ring_sectors() -> (r: Vec<u32>)
        ensures
            r@ == Seq::new(16, |i: int| (SNAPSHOT_RING_BASE + i * 4096) as u32),
    {
        let mut r: Vec<u32> = Vec::new();
        let mut addr: u32 = SNAPSHOT_RING_BASE;
        while addr < SNAPSHOT_RING_BASE + SNAPSHOT_RING_SIZE
            invariant
                SNAPSHOT_RING_BASE <= addr <= SNAPSHOT_RING_BASE + SNAPSHOT_RING_SIZE,
                (addr - SNAPSHOT_RING_BASE) % 4096 == 0,
                r@ == Seq::new(((addr - SNAPSHOT_RING_BASE) / 4096) as nat, |i: int| (SNAPSHOT_RING_BASE + i * 4096) as u32),
            decreases SNAPSHOT_RING_BASE + SNAPSHOT_RING_SIZE - addr,
        {
            r.push(addr);
            addr += SECTOR_SIZE;
            assert(r@ =~= Seq::new(((addr - SNAPSHOT_RING_BASE) / 4096) as nat, |i: int| (SNAPSHOT_RING_BASE + i * 4096) as u32));
        }
        r
    }

    /// Records that the ring was erased: it is empty again.
    pub fn reset_snapshot_cursor(&mut self)
        requires
            old(self).wf(),
        ensures
            final(self).wf(),
            final(self).ring_offset() == SNAPSHOT_RING_BASE,
            final(self).ring_next_seq() == 1,
            final(self).log_offset() == old(self).log_offset(),
            final(self).chip_ok() == old(self).chip_ok(),
            final(self).log_full() == old(self).log_full(),
    {
        self.snapshot_offset = SNAPSHOT_RING_BASE;
        self.snapshot_next_seq = 1;
    }

    /// The sectors of the data log that hold data, in address order: those
    /// from the start of the region up to the sector holding the last byte.
    pub fn wipe_sectors(&self) -> (r: Vec<u32>)
        requires
            self.wf(),
        ensures
            r@ == Seq::new(
                ((self.log_offset() - STORAGE_OFFSET + 4095) / 4096) as nat,
                |i: int| (STORAGE_OFFSET + i * 4096) as u32,
            ),
    {
        let end = (self.write_offset + SECTOR_SIZE - 1) / SECTOR_SIZE * SECTOR_SIZE;
        let mut r: Vec<u32> = Vec::new();
        let mut addr: u32 = STORAGE_OFFSET;
        let ghost count = ((self.log_offset() - STORAGE_OFFSET + 4095) / 4096) as nat;
        assert(end == STORAGE_OFFSET + count * 4096) by {
            vstd::arithmetic::div_mod::lemma_fundamental_div_mod(self.write_offset + 4095, 4096);
            vstd::arithmetic::div_mod::lemma_fundamental_div_mod(self.write_offset - STORAGE_OFFSET + 4095, 4096);
        }
        while addr < end
            invariant
                STORAGE_OFFSET <= addr <= end,
                end == STORAGE_OFFSET + count * 4096,
                end <= STORAGE_END,
                (addr - STORAGE_OFFSET) % 4096 == 0,
                r@ == Seq::new(((addr - STORAGE_OFFSET) / 4096) as nat, |i: int| (STORAGE_OFFSET + i * 4096) as u32),
            decreases end - addr,
        {
            r.push(addr);
            addr += SECTOR_SIZE;
            assert(r@ =~= Seq::new(((addr - STORAGE_OFFSET) / 4096) as nat, |i: int| (STORAGE_OFFSET + i * 4096) as u32));
        }
        r
    }

    /// Records that the data log was wiped: appends start over at the
    /// beginning of the region.
    pub fn finish_wipe(&mut self)
        requires
            old(self).wf(),
        ensures
            final(self).wf(),
            final(self).log_offset() == STORAGE_OFFSET,
            final(self).ring_offset() == old(self).ring_offset(),
            final(self).ring_next_seq() == old(self).ring_next_seq(),
            final(self).chip_ok() == old(self).chip_ok(),
            final(self).log_full() == old(self).log_full(),
    {
        self.write_offset = STORAGE_OFFSET;
    }
}

/// Whether a wipe that has erased `done` of `total` sectors reports progress:
/// every 16 sectors and after the last one.
pub fn wipe_progress_due(done: u32, total: u32) -> (r: bool)
    ensures
        r == (done % 16 == 0 || done == total),
{
    done % 16 == 0 || done == total
}

} // verus!
