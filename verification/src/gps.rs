//! The u-blox MAX-M10S GPS receiver on I2C: UBX command frames, the
//! configuration sent at start-up, and how much of the receiver's stream is
//! read at a time.
//!
//! The receiver's byte stream is parsed by the ublox crate's parser; the
//! NAV-PVT solutions it finds update the packet. Turning positions,
//! velocities and the time of day into degrees, metres per second and
//! seconds is floating point and is left to the caller.

use vstd::prelude::*;
use ublox::proto23::PacketRef;
use ublox::{FixedBuffer, Parser, UbxPacket};
use crate::bytes::{u32_of, read_u32};
use crate::packet::Packet;

verus! {

/// I2C address.
pub const GPS_I2C_ADDR: u8 = 0x42;
/// Register that streams the receiver's output.
pub const GPS_DATA_STREAM_REG: u8 = 0xFF;
/// Register holding the number of bytes available (big-endian, two bytes).
pub const GPS_AVAILABLE_REG: u8 = 0xFD;
/// Most bytes read in one transfer.
pub const MAX_READ_BYTES: usize = 255;
/// Most payload bytes a command frame can carry (the frame buffer is 256
/// bytes and the frame adds eight).
pub const MAX_PAYLOAD: usize = 248;
/// First UBX sync character.
pub const UBX_SYNC_CHAR_1: u8 = 0xB5;
/// Second UBX sync character.
pub const UBX_SYNC_CHAR_2: u8 = 0x62;
/// Configuration message class.
pub const UBX_CLASS_CFG: u8 = 0x06;
/// CFG-MSG: message rates.
pub const UBX_CFG_MSG: u8 = 0x01;
/// CFG-RATE: measurement rate.
pub const UBX_CFG_RATE: u8 = 0x08;
/// Navigation message class.
pub const UBX_CLASS_NAV: u8 = 0x01;
/// NAV-PVT: position, velocity and time.
pub const UBX_NAV_PVT: u8 = 0x07;

/// GPS errors.
#[derive(Clone, Copy, Debug, PartialEq, Eq, Structural)]
pub enum GpsError {
    I2cError,
    NoData,
}

/// The UBX checksum (8-bit Fletcher) of `data`: the running sum `ck_a` of
/// the bytes and the running sum `ck_b` of the `ck_a` values, both modulo
/// 256.
pub open spec fn ubx_checksum(data: Seq<u8>) -> (u8, u8)
    decreases data.len(),
{
    if data.len() == 0 {
        (0, 0)
    } else {
        let (a, b) = ubx_checksum(data.drop_last());
        let a2 = ((a + data.last()) % 256) as u8;
        (a2, ((b + a2) % 256) as u8)
    }
}

/// Computes the UBX checksum of `data`.
pub fn calculate_checksum(data: &[u8]) -> (r: (u8, u8))
    ensures
        r == ubx_checksum(data@),
{
    let mut ck_a: u8 = 0;
    let mut ck_b: u8 = 0;
    let mut i: usize = 0;
    while i < data.len()
        invariant
            i <= data@.len(),
            (ck_a, ck_b) == ubx_checksum(data@.subrange(0, i as int)),
        decreases data@.len() - i,
    {
        assert(data@.subrange(0, i + 1).drop_last() =~= data@.subrange(0, i as int));
        ck_a = ck_a.wrapping_add(data[i]);
        ck_b = ck_b.wrapping_add(ck_a);
        i += 1;
    }
    assert(data@.subrange(0, i as int) =~= data@);
    (ck_a, ck_b)
}

/// The header of a UBX frame: sync characters, class, id and the payload
/// length, little-endian.
pub open spec fn ubx_header(class: u8, id: u8, len: nat) -> Seq<u8> {
    seq![UBX_SYNC_CHAR_1, UBX_SYNC_CHAR_2, class, id, (len % 256) as u8, ((len / 256) % 256) as u8]
}

/// The UBX frame carrying `payload`: header, payload, and the checksum of
/// everything after the sync characters.
pub open spec fn ubx_frame_spec(class: u8, id: u8, payload: Seq<u8>) -> Seq<u8> {
    let body = ubx_header(class, id, payload.len()).skip(2) + payload;
    let (a, b) = ubx_checksum(body);
    ubx_header(class, id, payload.len()) + payload + seq![a, b]
}

/// Builds the UBX command frame that is written to the receiver.
pub fn ubx_frame(class: u8, id: u8, payload: &[u8]) -> (r: Vec<u8>)
    requires
        payload@.len() <= MAX_PAYLOAD,
    ensures
        r@ == ubx_frame_spec(class, id, payload@),
        r@.len() == payload@.len() + 8,
{
    let len = payload.len() as u16;
    let mut out: Vec<u8> = Vec::new();
    out.push(UBX_SYNC_CHAR_1);
    out.push(UBX_SYNC_CHAR_2);
    out.push(class);
    out.push(id);
    out.push((len % 256) as u8);
    out.push(((len / 256) % 256) as u8);
    assert(out@ =~= ubx_header(class, id, payload@.len()));
    let mut i: usize = 0;
    while i < payload.len()
        invariant
            i <= payload@.len(),
            payload@.len() <= MAX_PAYLOAD,
            out@ == ubx_header(class, id, payload@.len()) + payload@.subrange(0, i as int),
        decreases payload@.len() - i,
    {
        out.push(payload[i]);
        i += 1;
        assert(out@ =~= ubx_header(class, id, payload@.len()) + payload@.subrange(0, i as int));
    }
    assert(payload@.subrange(0, i as int) =~= payload@);
    let body = vstd::slice::slice_subrange(out.as_slice(), 2, out.len());
    assert(body@ =~= ubx_header(class, id, payload@.len()).skip(2) + payload@);
    let (a, b) = calculate_checksum(body);
    out.push(a);
    out.push(b);
    assert(out@ =~= ubx_frame_spec(class, id, payload@));
    out
}

/// CFG-RATE payload: a measurement every 1000 ms, a navigation solution
/// every measurement, aligned to UTC.
pub open spec fn rate_payload() -> Seq<u8> {
    seq![0xE8u8, 0x03u8, 0x01u8, 0x00u8, 0x00u8, 0x00u8]
}

/// CFG-MSG payload: NAV-PVT on every solution over I2C, off on the other
/// ports.
pub open spec fn msg_payload() -> Seq<u8> {
    seq![UBX_CLASS_NAV, UBX_NAV_PVT, 0x01u8, 0x00u8, 0x00u8, 0x00u8, 0x00u8, 0x00u8]
}

/// The frames written at configuration, in order: the measurement rate,
/// then NAV-PVT output on the I2C port.
pub fn configure_frames() -> (r: Vec<Vec<u8>>)
    ensures
        r@.len() == 2,
        r@[0]@ == ubx_frame_spec(UBX_CLASS_CFG, UBX_CFG_RATE, rate_payload()),
        r@[1]@ == ubx_frame_spec(UBX_CLASS_CFG, UBX_CFG_MSG, msg_payload()),
{
    let rate = [0xE8u8, 0x03u8, 0x01u8, 0x00u8, 0x00u8, 0x00u8];
    let msg = [UBX_CLASS_NAV, UBX_NAV_PVT, 0x01u8, 0x00u8, 0x00u8, 0x00u8, 0x00u8, 0x00u8];
    assert(rate@ =~= rate_payload());
    assert(msg@ =~= msg_payload());
    let f1 = ubx_frame(UBX_CLASS_CFG, UBX_CFG_RATE, vstd::array::array_as_slice(&rate));
    let f2 = ubx_frame(UBX_CLASS_CFG, UBX_CFG_MSG, vstd::array::array_as_slice(&msg));
    let mut r: Vec<Vec<u8>> = Vec::new();
    r.push(f1);
    r.push(f2);
    r
}

/// How many bytes to read, given the two-byte count of available bytes
/// (most significant first) and the room in the caller's buffer: none when
/// the count is 0 or reads 0xFFFF (no data), otherwise the count capped at
/// 255 bytes and at the buffer.
pub open spec fn bytes_to_read_spec(available: u16, room: usize) -> usize {
    if available == 0 || available == 0xFFFF {
        0
    } else {
        let a = if (available as usize) < MAX_READ_BYTES { available as usize } else { MAX_READ_BYTES };
        if a < room { a } else { room }
    }
}

/// Decides how many bytes to read from the stream register.
pub fn bytes_to_read(avail_bytes: [u8; 2], room: usize) -> (r: usize)
    ensures
        r == bytes_to_read_spec((256 * avail_bytes@[0] + avail_bytes@[1]) as u16, room),
        r <= MAX_READ_BYTES,
        r <= room,
{
    let available: u16 = (avail_bytes[0] as u16) * 256 + avail_bytes[1] as u16;
    if available == 0 || available == 0xFFFF {
        return 0;
    }
    let a: usize = if (available as usize) < MAX_READ_BYTES { available as usize } else { MAX_READ_BYTES };
    if a < room { a } else { room }
}

/// A bus transfer's outcome as the driver reports it: any bus error is an
/// `I2cError`.
pub fn i2c_result<T, E>(r: Result<T, E>) -> (o: Result<T, GpsError>)
    ensures
        r is Ok ==> o is Ok && o->Ok_0 == r->Ok_0,
        r is Err ==> o == Err::<T, GpsError>(GpsError::I2cError),
{
    match r {
        Ok(v) => Ok(v),
        Err(_) => Err(GpsError::I2cError),
    }
}

/// The presence check: the receiver is there when reading its
/// bytes-available register succeeds.
pub fn probe<E>(r: Result<[u8; 2], E>) -> (present: bool)
    ensures
        present == r is Ok,
{
    r.is_ok()
}

// ---------------------------------------------------------------------------
// Parsing the receiver's stream
// ---------------------------------------------------------------------------

/// The stream parser: the ublox crate's UBX parser over a 512-byte buffer,
/// which keeps a message split across reads until the rest arrives. The
/// parser type is held opaque here: its declaration needs the crate's
/// buffer and protocol traits as bounds, which Verus does not accept.
#[verifier::external_body]
pub struct UbxStream {
    parser: Parser<FixedBuffer<512>>,
}

/// What the parser yields for one message, as it hands it over: a NAV-PVT
/// solution by its payload bytes, another well-formed message, or a
/// malformed one.
pub enum UbxFrame {
    NavPvt(Vec<u8>),
    Other,
    Malformed,
}

/// The raw integer fields of a NAV-PVT solution that the flight software
/// uses, in the units the receiver sends.
#[derive(Clone, Copy, Debug, PartialEq, Eq, Structural)]
pub struct NavPvtRaw {
    /// Hour of day (UTC).
    pub hour: u8,
    /// Minute of hour.
    pub min: u8,
    /// Second of minute.
    pub sec: u8,
    /// GNSS fix type (0 none, 2 2D, 3 3D, ...).
    pub fix_type: u8,
    /// Satellites used in the solution.
    pub num_satellites: u8,
    /// Longitude, degrees × 1e7.
    pub lon: i32,
    /// Latitude, degrees × 1e7.
    pub lat: i32,
    /// Horizontal accuracy, mm.
    pub h_acc: u32,
    /// Vertical accuracy, mm.
    pub v_acc: u32,
    /// North velocity, mm/s.
    pub vel_n: i32,
    /// East velocity, mm/s.
    pub vel_e: i32,
    /// Down velocity, mm/s.
    pub vel_d: i32,
    /// Ground speed, mm/s.
    pub g_speed: i32,
    /// Heading of motion, degrees × 1e5.
    pub head_mot: i32,
    /// Speed accuracy, mm/s.
    pub s_acc: u32,
    /// Heading accuracy, degrees × 1e5.
    pub head_acc: u32,
}

/// A parsed message, with a NAV-PVT solution decoded to its fields.
#[derive(Clone, Copy, Debug, PartialEq, Eq, Structural)]
pub enum UbxItem {
    NavPvt(NavPvtRaw),
    Other,
    Malformed,
}

/// The fields of a 92-byte NAV-PVT payload, read at their offsets in the
/// message, little-endian, as the parser's own field accessors read them.
pub open spec fn nav_pvt_of(p: Seq<u8>) -> NavPvtRaw {
    NavPvtRaw {
        hour: p[8],
        min: p[9],
        sec: p[10],
        fix_type: p[20],
        num_satellites: p[23],
        lon: u32_of(p.subrange(24, 28)) as i32,
        lat: u32_of(p.subrange(28, 32)) as i32,
        h_acc: u32_of(p.subrange(40, 44)),
        v_acc: u32_of(p.subrange(44, 48)),
        vel_n: u32_of(p.subrange(48, 52)) as i32,
        vel_e: u32_of(p.subrange(52, 56)) as i32,
        vel_d: u32_of(p.subrange(56, 60)) as i32,
        g_speed: u32_of(p.subrange(60, 64)) as i32,
        head_mot: u32_of(p.subrange(64, 68)) as i32,
        s_acc: u32_of(p.subrange(68, 72)),
        head_acc: u32_of(p.subrange(72, 76)),
    }
}

/// What a frame decodes to.
pub open spec fn item_of(f: UbxFrame) -> UbxItem {
    match f {
        UbxFrame::NavPvt(p) => UbxItem::NavPvt(nav_pvt_of(p@)),
        UbxFrame::Other => UbxItem::Other,
        UbxFrame::Malformed => UbxItem::Malformed,
    }
}

/// Whether a frame is a NAV-PVT solution of the fixed 92-byte length.
pub open spec fn frame_ok(f: UbxFrame) -> bool {
    f matches UbxFrame::NavPvt(p) ==> p@.len() == 92
}

/// The bytes the parser holds back: the start of a message whose rest has
/// not arrived yet.
pub uninterp spec fn ubx_buffered(s: UbxStream) -> Seq<u8>;

/// What the parser does with `new` bytes when it holds `pending`: the frames
/// its iterator yields, in order, and the bytes it holds back afterwards.
pub uninterp spec fn ubx_parse(pending: Seq<u8>, new: Seq<u8>) -> (Seq<UbxFrame>, Seq<u8>);

/// `Parser::new_fixed`: a parser with an empty 512-byte buffer.
#[verifier::external_body]
fn ubx_stream_new() -> (s: UbxStream)
    ensures
        ubx_buffered(s) == Seq::<u8>::empty(),
{
    UbxStream { parser: Parser::new_fixed() }
}

/// `Parser::consume_ubx` and its iterator, run to the end: feeds `bytes` to
/// the parser and gives one frame per item the iterator yields. The frames
/// and the bytes held back afterwards are the parse of what the parser held
/// and the new bytes; a NAV-PVT item is produced only for a payload of
/// exactly 92 bytes (the parser checks the length before it names a message
/// NAV-PVT).
#[verifier::external_body]
fn ubx_consume(s: &mut UbxStream, bytes: &[u8]) -> (frames: Vec<UbxFrame>)
    ensures
        frames@ == ubx_parse(ubx_buffered(*old(s)), bytes@).0,
        ubx_buffered(*final(s)) == ubx_parse(ubx_buffered(*old(s)), bytes@).1,
        forall|i: int| 0 <= i < frames@.len() ==> frame_ok(#[trigger] frames@[i]),
{
    let mut frames = Vec::new();
    let mut it = s.parser.consume_ubx(bytes);
    while let Some(item) = it.next() {
        frames.push(match item {
            Ok(UbxPacket::Proto23(PacketRef::NavPvt(p))) => UbxFrame::NavPvt(p.as_bytes().to_vec()),
            Ok(_) => UbxFrame::Other,
            Err(_) => UbxFrame::Malformed,
        });
    }
    frames
}

impl UbxStream {
    /// A parser that holds nothing yet.
    pub fn new() -> (s: UbxStream)
        ensures
            ubx_buffered(s) == Seq::<u8>::empty(),
    {
        ubx_stream_new()
    }
}

/// Decodes the fields of a 92-byte NAV-PVT payload.
pub fn decode_nav_pvt(p: &[u8]) -> (r: NavPvtRaw)
    requires
        p@.len() == 92,
    ensures
        r == nav_pvt_of(p@),
{
    NavPvtRaw {
        hour: p[8],
        min: p[9],
        sec: p[10],
        fix_type: p[20],
        num_satellites: p[23],
        lon: read_u32(p, 24) as i32,
        lat: read_u32(p, 28) as i32,
        h_acc: read_u32(p, 40),
        v_acc: read_u32(p, 44),
        vel_n: read_u32(p, 48) as i32,
        vel_e: read_u32(p, 52) as i32,
        vel_d: read_u32(p, 56) as i32,
        g_speed: read_u32(p, 60) as i32,
        head_mot: read_u32(p, 64) as i32,
        s_acc: read_u32(p, 68),
        head_acc: read_u32(p, 72),
    }
}

/// Decodes each frame the parser gave.
pub fn decode_frames(frames: &Vec<UbxFrame>) -> (items: Vec<UbxItem>)
    requires
        forall|i: int| 0 <= i < frames@.len() ==> frame_ok(#[trigger] frames@[i]),
    ensures
        items@.len() == frames@.len(),
        forall|i: int| 0 <= i < items@.len() ==> #[trigger] items@[i] == item_of(frames@[i]),
{
    let mut items: Vec<UbxItem> = Vec::new();
    let mut i: usize = 0;
    while i < frames.len()
        invariant
            i <= frames@.len(),
            forall|k: int| 0 <= k < frames@.len() ==> frame_ok(#[trigger] frames@[k]),
            items@.len() == i,
            forall|k: int| 0 <= k < i ==> #[trigger] items@[k] == item_of(frames@[k]),
        decreases frames@.len() - i,
    {
        let item = match &frames[i] {
            UbxFrame::NavPvt(p) => {
                assert(frame_ok(frames@[i as int]));
                UbxItem::NavPvt(decode_nav_pvt(p.as_slice()))
            },
            UbxFrame::Other => UbxItem::Other,
            UbxFrame::Malformed => UbxItem::Malformed,
        };
        items.push(item);
        i += 1;
    }
    items
}

/// The last NAV-PVT solution among `items`, if any.
pub open spec fn last_nav_pvt(items: Seq<UbxItem>) -> Option<NavPvtRaw>
    decreases items.len(),
{
    if items.len() == 0 {
        None
    } else {
        match items.last() {
            UbxItem::NavPvt(p) => Some(p),
            _ => last_nav_pvt(items.drop_last()),
        }
    }
}

/// Whether some item is a NAV-PVT solution.
pub open spec fn has_nav_pvt(items: Seq<UbxItem>) -> bool {
    exists|i: int| 0 <= i < items.len() && items[i] is NavPvt
}

proof fn lemma_last_nav_pvt_some(items: Seq<UbxItem>)
    ensures
        last_nav_pvt(items) is Some <==> has_nav_pvt(items),
    decreases items.len(),
{
    if items.len() > 0 {
        let init = items.drop_last();
        lemma_last_nav_pvt_some(init);
        if has_nav_pvt(init) {
            let i = choose|i: int| 0 <= i < init.len() && init[i] is NavPvt;
            assert(items[i] == init[i]);
        }
        if has_nav_pvt(items) && !(items.last() is NavPvt) {
            let i = choose|i: int| 0 <= i < items.len() && items[i] is NavPvt;
            assert(i < items.len() - 1);
            assert(init[i] == items[i]);
        }
    }
}

/// What one read of the receiver decides from the parsed items, as a spec.
pub open spec fn gps_update_spec(bytes_read: usize, items: Seq<UbxItem>) -> (Option<NavPvtRaw>, Result<(), GpsError>) {
    (
        if bytes_read > 0 { last_nav_pvt(items) } else { None },
        read_outcome_spec(bytes_read, has_nav_pvt(items)),
    )
}

/// What one read of the receiver decides from the parsed items: with no
/// bytes read, nothing and `NoData`; otherwise the last NAV-PVT solution
/// (the one the packet ends up holding), and success exactly when there is
/// one.
pub fn gps_update(bytes_read: usize, items: &[UbxItem]) -> (r: (Option<NavPvtRaw>, Result<(), GpsError>))
    ensures
        r.0 == (if bytes_read > 0 { last_nav_pvt(items@) } else { None }),
        r.1 == read_outcome_spec(bytes_read, has_nav_pvt(items@)),
        r == gps_update_spec(bytes_read, items@),
{
    proof {
        lemma_last_nav_pvt_some(items@);
    }
    if bytes_read == 0 {
        return (None, read_outcome(bytes_read, false));
    }
    let mut last: Option<NavPvtRaw> = None;
    let mut i: usize = 0;
    while i < items.len()
        invariant
            i <= items@.len(),
            last == last_nav_pvt(items@.subrange(0, i as int)),
        decreases items@.len() - i,
    {
        proof {
            let t = items@.subrange(0, i + 1);
            assert(t.drop_last() =~= items@.subrange(0, i as int));
            assert(t.last() == items@[i as int]);
        }
        if let UbxItem::NavPvt(p) = items[i] {
            last = Some(p);
        }
        i += 1;
    }
    assert(items@.subrange(0, i as int) =~= items@);
    let found = last.is_some();
    (last, read_outcome(bytes_read, found))
}

/// The packet after a NAV-PVT solution: the fields the receiver sends as
/// integers are copied (satellite count, accuracies in mm, mm/s and
/// degrees × 1e5, fix type, heading of motion in degrees × 1e5); the rest
/// is left as it was.
pub open spec fn with_nav_pvt(p: Packet, n: NavPvtRaw) -> Packet {
    Packet {
        num_satellites: n.num_satellites as u32,
        h_acc: n.h_acc,
        v_acc: n.v_acc,
        s_acc: n.s_acc,
        head_acc: n.head_acc,
        fix_type: n.fix_type,
        head_mot: n.head_mot,
        ..p
    }
}

/// Copies the integer fields of a NAV-PVT solution into the packet.
pub fn apply_nav_pvt(packet: &mut Packet, n: &NavPvtRaw)
    ensures
        *final(packet) == with_nav_pvt(*old(packet), *n),
{
    packet.num_satellites = n.num_satellites as u32;
    packet.h_acc = n.h_acc;
    packet.v_acc = n.v_acc;
    packet.s_acc = n.s_acc;
    packet.head_acc = n.head_acc;
    packet.fix_type = n.fix_type;
    packet.head_mot = n.head_mot;
}

/// The items one read of `bytes` yields from a parser holding `pending`.
pub open spec fn parsed_items(pending: Seq<u8>, bytes: Seq<u8>) -> Seq<UbxItem> {
    ubx_parse(pending, bytes).0.map_values(|f: UbxFrame| item_of(f))
}

/// Reads the bytes taken from the receiver into the packet: nothing read is
/// `NoData` and leaves the parser alone; otherwise the bytes go to the parser,
/// and the last NAV-PVT solution it yields updates the packet's integer
/// fields and is returned (for the caller's floating-point fields), with
/// success exactly when there is one.
pub fn read_into_packet(stream: &mut UbxStream, bytes: &[u8], packet: &mut Packet)
    -> (r: (Option<NavPvtRaw>, Result<(), GpsError>))
    ensures
        bytes@.len() == 0 ==> {
            &&& r.0 is None
            &&& r.1 == Err::<(), GpsError>(GpsError::NoData)
            &&& ubx_buffered(*final(stream)) == ubx_buffered(*old(stream))
        },
        bytes@.len() > 0 ==> {
            &&& r.0 == last_nav_pvt(parsed_items(ubx_buffered(*old(stream)), bytes@))
            &&& ubx_buffered(*final(stream)) == ubx_parse(ubx_buffered(*old(stream)), bytes@).1
        },
        r == gps_update_spec(bytes@.len() as usize, if bytes@.len() > 0 {
            parsed_items(ubx_buffered(*old(stream)), bytes@)
        } else {
            Seq::empty()
        }),
        match r.0 {
            Some(n) => *final(packet) == with_nav_pvt(*old(packet), n),
            None => *final(packet) == *old(packet),
        },
{
    if bytes.len() == 0 {
        return (None, read_outcome(0, false));
    }
    let frames = ubx_consume(stream, bytes);
    let items = decode_frames(&frames);
    proof {
        assert(items@ =~= parsed_items(ubx_buffered(*old(stream)), bytes@));
    }
    let r = gps_update(bytes.len(), items.as_slice());
    proof {
        lemma_last_nav_pvt_some(items@);
    }
    if let Some(n) = r.0 {
        apply_nav_pvt(packet, &n);
    }
    r
}

/// What reading the receiver comes to, as a spec.
pub open spec fn read_outcome_spec(bytes_read: usize, found_pvt: bool) -> Result<(), GpsError> {
    if bytes_read > 0 && found_pvt { Ok(()) } else { Err(GpsError::NoData) }
}

/// What reading the receiver comes to: no bytes, or bytes that held no
/// NAV-PVT message, is `NoData`; a NAV-PVT message found is success.
pub fn read_outcome(bytes_read: usize, found_pvt: bool) -> (r: Result<(), GpsError>)
    ensures
        r == read_outcome_spec(bytes_read, found_pvt),
{
    if bytes_read == 0 {
        return Err(GpsError::NoData);
    }
    if found_pvt {
        Ok(())
    } else {
        Err(GpsError::NoData)
    }
}

} // verus!
