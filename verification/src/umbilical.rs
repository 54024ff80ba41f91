//! The USB umbilical to the ground station: heartbeat tracking, the command
//! tokens the host sends, and the outbound text stream.
//!
//! The USB device and the tasks that move bytes on and off the wire belong to
//! the caller. The link state kept here stands for what those tasks share: the
//! outbound chunk queue (32 chunks of at most 64 bytes, dropped when full), the
//! command queue (4 commands, dropped when full), the heartbeat clock and the
//! flag that silences telemetry during a dump.

use vstd::prelude::*;
use embassy_sync::channel::Channel;
use embassy_sync::blocking_mutex::raw::NoopRawMutex;
use vstd::array::array_as_slice;
use vstd::string::StringSliceAdditionalSpecFns;
use vstd::slice::slice_subrange;
use crate::bytes::{find_window, window_at};

verus! {

/// Time without a heartbeat after which the umbilical counts as disconnected.
pub const HEARTBEAT_TIMEOUT_MS: u32 = 3000;
/// Capacity of the outbound queue, in chunks.
pub const OUTBOUND_CAPACITY: usize = 32;
/// Largest outbound chunk: one USB full-speed packet.
pub const CHUNK_SIZE: usize = 64;
/// Capacity of the command queue.
pub const COMMAND_CAPACITY: usize = 4;
/// Buffer a telemetry line is formatted into.
pub const TELEMETRY_LINE_SIZE: usize = 1024;
/// Buffer a log line is formatted into.
pub const LOG_LINE_SIZE: usize = 256;

/// Commands that can be received from the ground station.
#[derive(Clone, Copy, Debug, PartialEq, Eq, Structural)]
pub enum UmbilicalCommand {
    Launch,
    OpenMav,
    CloseMav,
    OpenSv,
    CloseSv,
    Safe,
    ResetFram,
    DumpFram,
    Reboot,
    DumpFlash,
    WipeFlash,
    FlashInfo,
    PayloadN1,
    PayloadN2,
    PayloadN3,
    PayloadN4,
    PayloadA1,
    PayloadA2,
    PayloadA3,
    WipeFramReboot,
    KeyArm,
    KeyDisarm,
    /// BLiMS targets; each coordinate is an `f32` bit pattern, in degrees.
    SetBlimsTarget { upwind_lat: u32, upwind_lon: u32, downwind_lat: u32, downwind_lon: u32 },
    TriggerDrogue,
    TriggerMain,
    DrogueMode,
    MainMode,
    DeployAirbrakes,
    RetractAirbrakes,
    TriggerBLiMS,
    FaultMode,
}

// ---------------------------------------------------------------------------
// Command tokens
// ---------------------------------------------------------------------------

/// The command of a one-letter token `<c>`.
pub open spec fn single_token(c: u8) -> Option<UmbilicalCommand> {
    if c == 76 { Some(UmbilicalCommand::Launch) }            // L
    else if c == 77 { Some(UmbilicalCommand::OpenMav) }      // M
    else if c == 109 { Some(UmbilicalCommand::CloseMav) }    // m
    else if c == 83 { Some(UmbilicalCommand::OpenSv) }       // S
    else if c == 115 { Some(UmbilicalCommand::CloseSv) }     // s
    else if c == 86 { Some(UmbilicalCommand::Safe) }         // V
    else if c == 70 { Some(UmbilicalCommand::ResetFram) }    // F
    else if c == 102 { Some(UmbilicalCommand::DumpFram) }    // f
    else if c == 82 { Some(UmbilicalCommand::Reboot) }       // R
    else if c == 71 { Some(UmbilicalCommand::DumpFlash) }    // G
    else if c == 87 { Some(UmbilicalCommand::WipeFlash) }    // W
    else if c == 73 { Some(UmbilicalCommand::FlashInfo) }    // I
    else if c == 49 { Some(UmbilicalCommand::PayloadN1) }    // 1
    else if c == 50 { Some(UmbilicalCommand::PayloadN2) }    // 2
    else if c == 51 { Some(UmbilicalCommand::PayloadN3) }    // 3
    else if c == 52 { Some(UmbilicalCommand::PayloadN4) }    // 4
    else if c == 88 { Some(UmbilicalCommand::WipeFramReboot) }  // X
    else if c == 68 { Some(UmbilicalCommand::TriggerDrogue) }   // D
    else if c == 100 { Some(UmbilicalCommand::TriggerMain) }    // d
    else if c == 65 { Some(UmbilicalCommand::DeployAirbrakes) } // A
    else if c == 97 { Some(UmbilicalCommand::RetractAirbrakes) }  // a
    else if c == 66 { Some(UmbilicalCommand::TriggerBLiMS) }    // B
    else { None }
}

/// The command of a two-letter token `<c1c2>`.
pub open spec fn double_token(c1: u8, c2: u8) -> Option<UmbilicalCommand> {
    if c1 == 65 && c2 == 49 { Some(UmbilicalCommand::PayloadA1) }        // A1
    else if c1 == 65 && c2 == 50 { Some(UmbilicalCommand::PayloadA2) }   // A2
    else if c1 == 65 && c2 == 51 { Some(UmbilicalCommand::PayloadA3) }   // A3
    else if c1 == 75 && c2 == 65 { Some(UmbilicalCommand::KeyArm) }      // KA
    else if c1 == 75 && c2 == 68 { Some(UmbilicalCommand::KeyDisarm) }   // KD
    else if c1 == 68 && c2 == 82 { Some(UmbilicalCommand::DrogueMode) }  // DR
    else if c1 == 77 && c2 == 82 { Some(UmbilicalCommand::MainMode) }    // MR
    else if c1 == 70 && c2 == 85 { Some(UmbilicalCommand::FaultMode) }   // FU
    else { None }
}

/// The command a whole USB packet stands for, if it is exactly one known
/// token `<c>` or `<c1c2>`.
pub open spec fn token_command(data: Seq<u8>) -> Option<UmbilicalCommand> {
    if data.len() == 3 && data[0] == 60 && data[2] == 62 {
        single_token(data[1])
    } else if data.len() == 4 && data[0] == 60 && data[3] == 62 {
        double_token(data[1], data[2])
    } else {
        None
    }
}

fn parse_single_token(c: u8) -> (r: Option<UmbilicalCommand>)
    ensures
        r == single_token(c),
{
    match c {
        76u8 => Some(UmbilicalCommand::Launch),  // L
        77u8 => Some(UmbilicalCommand::OpenMav),  // M
        109u8 => Some(UmbilicalCommand::CloseMav),  // m
        83u8 => Some(UmbilicalCommand::OpenSv),  // S
        115u8 => Some(UmbilicalCommand::CloseSv),  // s
        86u8 => Some(UmbilicalCommand::Safe),  // V
        70u8 => Some(UmbilicalCommand::ResetFram),  // F
        102u8 => Some(UmbilicalCommand::DumpFram),  // f
        82u8 => Some(UmbilicalCommand::Reboot),  // R
        71u8 => Some(UmbilicalCommand::DumpFlash),  // G
        87u8 => Some(UmbilicalCommand::WipeFlash),  // W
        73u8 => Some(UmbilicalCommand::FlashInfo),  // I
        49u8 => Some(UmbilicalCommand::PayloadN1),  // 1
        50u8 => Some(UmbilicalCommand::PayloadN2),  // 2
        51u8 => Some(UmbilicalCommand::PayloadN3),  // 3
        52u8 => Some(UmbilicalCommand::PayloadN4),  // 4
        88u8 => Some(UmbilicalCommand::WipeFramReboot),  // X
        68u8 => Some(UmbilicalCommand::TriggerDrogue),  // D
        100u8 => Some(UmbilicalCommand::TriggerMain),  // d
        65u8 => Some(UmbilicalCommand::DeployAirbrakes),  // A
        97u8 => Some(UmbilicalCommand::RetractAirbrakes),  // a
        66u8 => Some(UmbilicalCommand::TriggerBLiMS),  // B
        _ => None,
    }
}

fn parse_double_token(c1: u8, c2: u8) -> (r: Option<UmbilicalCommand>)
    ensures
        r == double_token(c1, c2),
{
    match (c1, c2) {
        (65u8, 49u8) => Some(UmbilicalCommand::PayloadA1),  // A1
        (65u8, 50u8) => Some(UmbilicalCommand::PayloadA2),  // A2
        (65u8, 51u8) => Some(UmbilicalCommand::PayloadA3),  // A3
        (75u8, 65u8) => Some(UmbilicalCommand::KeyArm),  // KA
        (75u8, 68u8) => Some(UmbilicalCommand::KeyDisarm),  // KD
        (68u8, 82u8) => Some(UmbilicalCommand::DrogueMode),  // DR
        (77u8, 82u8) => Some(UmbilicalCommand::MainMode),  // MR
        (70u8, 85u8) => Some(UmbilicalCommand::FaultMode),  // FU
        _ => None,
    }
}

/// The command a USB packet stands for, if it is exactly one known token.
pub fn parse_token(data: &[u8]) -> (r: Option<UmbilicalCommand>)
    ensures
        r == token_command(data@),
{
    if data.len() == 3 && data[0] == 60u8 && data[2] == 62u8 {
        parse_single_token(data[1])
    } else if data.len() == 4 && data[0] == 60u8 && data[3] == 62u8 {
        parse_double_token(data[1], data[2])
    } else {
        None
    }
}

/// The one-letter token `<c>`.
pub open spec fn bracketed(c: u8) -> Seq<u8> {
    seq![60u8, c, 62u8]
}

/// The ground station's command tokens: each of the one- and two-letter
/// tokens below, sent as a whole USB packet, is the command shown, and an
/// upper-case letter and its lower-case partner are opposite commands (`<S>`
/// opens the vent valve, `<s>` closes it; `<D>` fires the drogue, `<d>` the
/// main chute). Every other bracketed letter is no command.
pub proof fn lemma_token_table()
    ensures
        token_command(seq![60u8, 76u8, 62u8]) == Some(UmbilicalCommand::Launch),  // <L>
        token_command(seq![60u8, 77u8, 62u8]) == Some(UmbilicalCommand::OpenMav),  // <M>
        token_command(seq![60u8, 109u8, 62u8]) == Some(UmbilicalCommand::CloseMav),  // <m>
        token_command(seq![60u8, 83u8, 62u8]) == Some(UmbilicalCommand::OpenSv),  // <S>
        token_command(seq![60u8, 115u8, 62u8]) == Some(UmbilicalCommand::CloseSv),  // <s>
        token_command(seq![60u8, 86u8, 62u8]) == Some(UmbilicalCommand::Safe),  // <V>
        token_command(seq![60u8, 70u8, 62u8]) == Some(UmbilicalCommand::ResetFram),  // <F>
        token_command(seq![60u8, 102u8, 62u8]) == Some(UmbilicalCommand::DumpFram),  // <f>
        token_command(seq![60u8, 82u8, 62u8]) == Some(UmbilicalCommand::Reboot),  // <R>
        token_command(seq![60u8, 71u8, 62u8]) == Some(UmbilicalCommand::DumpFlash),  // <G>
        token_command(seq![60u8, 87u8, 62u8]) == Some(UmbilicalCommand::WipeFlash),  // <W>
        token_command(seq![60u8, 73u8, 62u8]) == Some(UmbilicalCommand::FlashInfo),  // <I>
        token_command(seq![60u8, 49u8, 62u8]) == Some(UmbilicalCommand::PayloadN1),  // <1>
        token_command(seq![60u8, 50u8, 62u8]) == Some(UmbilicalCommand::PayloadN2),  // <2>
        token_command(seq![60u8, 51u8, 62u8]) == Some(UmbilicalCommand::PayloadN3),  // <3>
        token_command(seq![60u8, 52u8, 62u8]) == Some(UmbilicalCommand::PayloadN4),  // <4>
        token_command(seq![60u8, 88u8, 62u8]) == Some(UmbilicalCommand::WipeFramReboot),  // <X>
        token_command(seq![60u8, 68u8, 62u8]) == Some(UmbilicalCommand::TriggerDrogue),  // <D>
        token_command(seq![60u8, 100u8, 62u8]) == Some(UmbilicalCommand::TriggerMain),  // <d>
        token_command(seq![60u8, 65u8, 62u8]) == Some(UmbilicalCommand::DeployAirbrakes),  // <A>
        token_command(seq![60u8, 97u8, 62u8]) == Some(UmbilicalCommand::RetractAirbrakes),  // <a>
        token_command(seq![60u8, 66u8, 62u8]) == Some(UmbilicalCommand::TriggerBLiMS),  // <B>
        token_command(seq![60u8, 65u8, 49u8, 62u8]) == Some(UmbilicalCommand::PayloadA1),  // <A1>
        token_command(seq![60u8, 65u8, 50u8, 62u8]) == Some(UmbilicalCommand::PayloadA2),  // <A2>
        token_command(seq![60u8, 65u8, 51u8, 62u8]) == Some(UmbilicalCommand::PayloadA3),  // <A3>
        token_command(seq![60u8, 75u8, 65u8, 62u8]) == Some(UmbilicalCommand::KeyArm),  // <KA>
        token_command(seq![60u8, 75u8, 68u8, 62u8]) == Some(UmbilicalCommand::KeyDisarm),  // <KD>
        token_command(seq![60u8, 68u8, 82u8, 62u8]) == Some(UmbilicalCommand::DrogueMode),  // <DR>
        token_command(seq![60u8, 77u8, 82u8, 62u8]) == Some(UmbilicalCommand::MainMode),  // <MR>
        token_command(seq![60u8, 70u8, 85u8, 62u8]) == Some(UmbilicalCommand::FaultMode),  // <FU>
        forall|c: u8| c != 76 && c != 77 && c != 109 && c != 83 && c != 115 && c != 86 && c != 70 && c != 102 && c != 82 && c != 71 && c != 87 && c != 73 && c != 49 && c != 50 && c != 51 && c != 52 && c != 88 && c != 68 && c != 100 && c != 65 && c != 97 && c != 66 ==> #[trigger] token_command(bracketed(c)) is None,
{
    assert forall|c: u8| c != 76 && c != 77 && c != 109 && c != 83 && c != 115 && c != 86 && c != 70 && c != 102 && c != 82 && c != 71 && c != 87 && c != 73 && c != 49 && c != 50 && c != 51 && c != 52 && c != 88 && c != 68 && c != 100 && c != 65 && c != 97 && c != 66 implies #[trigger] token_command(bracketed(c)) is None by {
        let t = bracketed(c);
        assert(t.len() == 3 && t[0] == 60 && t[1] == c && t[2] == 62);
    }
    assert(seq![60u8, 76u8, 62u8][1] == 76u8);
    assert(seq![60u8, 77u8, 62u8][1] == 77u8);
    assert(seq![60u8, 109u8, 62u8][1] == 109u8);
    assert(seq![60u8, 83u8, 62u8][1] == 83u8);
    assert(seq![60u8, 115u8, 62u8][1] == 115u8);
    assert(seq![60u8, 86u8, 62u8][1] == 86u8);
    assert(seq![60u8, 70u8, 62u8][1] == 70u8);
    assert(seq![60u8, 102u8, 62u8][1] == 102u8);
    assert(seq![60u8, 82u8, 62u8][1] == 82u8);
    assert(seq![60u8, 71u8, 62u8][1] == 71u8);
    assert(seq![60u8, 87u8, 62u8][1] == 87u8);
    assert(seq![60u8, 73u8, 62u8][1] == 73u8);
    assert(seq![60u8, 49u8, 62u8][1] == 49u8);
    assert(seq![60u8, 50u8, 62u8][1] == 50u8);
    assert(seq![60u8, 51u8, 62u8][1] == 51u8);
    assert(seq![60u8, 52u8, 62u8][1] == 52u8);
    assert(seq![60u8, 88u8, 62u8][1] == 88u8);
    assert(seq![60u8, 68u8, 62u8][1] == 68u8);
    assert(seq![60u8, 100u8, 62u8][1] == 100u8);
    assert(seq![60u8, 65u8, 62u8][1] == 65u8);
    assert(seq![60u8, 97u8, 62u8][1] == 97u8);
    assert(seq![60u8, 66u8, 62u8][1] == 66u8);
    assert(seq![60u8, 65u8, 49u8, 62u8][1] == 65u8 && seq![60u8, 65u8, 49u8, 62u8][2] == 49u8);
    assert(seq![60u8, 65u8, 50u8, 62u8][1] == 65u8 && seq![60u8, 65u8, 50u8, 62u8][2] == 50u8);
    assert(seq![60u8, 65u8, 51u8, 62u8][1] == 65u8 && seq![60u8, 65u8, 51u8, 62u8][2] == 51u8);
    assert(seq![60u8, 75u8, 65u8, 62u8][1] == 75u8 && seq![60u8, 75u8, 65u8, 62u8][2] == 65u8);
    assert(seq![60u8, 75u8, 68u8, 62u8][1] == 75u8 && seq![60u8, 75u8, 68u8, 62u8][2] == 68u8);
    assert(seq![60u8, 68u8, 82u8, 62u8][1] == 68u8 && seq![60u8, 68u8, 82u8, 62u8][2] == 82u8);
    assert(seq![60u8, 77u8, 82u8, 62u8][1] == 77u8 && seq![60u8, 77u8, 82u8, 62u8][2] == 82u8);
    assert(seq![60u8, 70u8, 85u8, 62u8][1] == 70u8 && seq![60u8, 70u8, 85u8, 62u8][2] == 85u8);
}

// ---------------------------------------------------------------------------
// BLiMS target packets
// ---------------------------------------------------------------------------

/// The parts of `s` between commas, as `str::split(',')` gives them: one more
/// part than there are commas, possibly empty.
pub open spec fn split_commas(s: Seq<u8>) -> Seq<Seq<u8>>
    decreases s.len(),
{
    if s.len() == 0 {
        seq![Seq::empty()]
    } else {
        let rest = split_commas(s.drop_last());
        if s.last() == 44 {
            rest.push(Seq::empty())
        } else {
            rest.update(rest.len() - 1, rest.last().push(s.last()))
        }
    }
}

proof fn lemma_split_commas_nonempty(s: Seq<u8>)
    ensures
        split_commas(s).len() >= 1,
    decreases s.len(),
{
    if s.len() > 0 {
        lemma_split_commas_nonempty(s.drop_last());
    }
}

/// The contents of a list of byte vectors.
pub open spec fn byte_vecs(v: Seq<Vec<u8>>) -> Seq<Seq<u8>> {
    v.map_values(|x: Vec<u8>| x@)
}

/// Splits `body` at its commas.
pub fn split_fields(body: &[u8]) -> (r: Vec<Vec<u8>>)
    ensures
        byte_vecs(r@) == split_commas(body@),
{
    let mut parts: Vec<Vec<u8>> = Vec::new();
    let mut current: Vec<u8> = Vec::new();
    let mut i: usize = 0;
    assert(body@.subrange(0, 0) =~= Seq::<u8>::empty());
    assert(byte_vecs(parts@).push(current@) =~= split_commas(Seq::<u8>::empty()));
    while i < body.len()
        invariant
            i <= body@.len(),
            byte_vecs(parts@).push(current@) == split_commas(body@.subrange(0, i as int)),
        decreases body@.len() - i,
    {
        let b = body[i];
        let ghost before = body@.subrange(0, i as int);
        let ghost after = body@.subrange(0, i + 1);
        assert(after.drop_last() =~= before);
        proof {
            lemma_split_commas_nonempty(before);
        }
        if b == 44u8 {
            let done = current;
            parts.push(done);
            current = Vec::new();
            assert(byte_vecs(parts@).push(current@) =~= split_commas(before).push(Seq::empty()));
        } else {
            let ghost old_parts = byte_vecs(parts@);
            let ghost old_current = current@;
            current.push(b);
            assert(byte_vecs(parts@).push(current@) =~= old_parts.push(old_current).update(
                old_parts.len() as int,
                old_current.push(b),
            ));
        }
        i += 1;
    }
    assert(body@.subrange(0, body@.len() as int) =~= body@);
    parts.push(current);
    parts
}

/// Whether a packet has the shape `<T,...>` of a BLiMS target command.
pub open spec fn is_target_packet(data: Seq<u8>) -> bool {
    data.len() >= 4 && data[0] == 60 && data[1] == 84 && data[2] == 44 && data[data.len() - 1] == 62
}

// ---------------------------------------------------------------------------
// Outbound chunking
// ---------------------------------------------------------------------------

/// `data` cut into 64-byte chunks, the last one possibly shorter.
pub open spec fn usb_chunks(data: Seq<u8>) -> Seq<Seq<u8>>
    decreases data.len(),
{
    if data.len() == 0 {
        Seq::empty()
    } else if data.len() <= 64 {
        seq![data]
    } else {
        seq![data.take(64)] + usb_chunks(data.skip(64))
    }
}

/// Cutting into chunks loses nothing and reorders nothing: the chunks,
/// concatenated, are the data; each is non-empty and at most 64 bytes long,
/// and all but the last are exactly 64.
pub proof fn lemma_usb_chunks_flatten(data: Seq<u8>)
    ensures
        usb_chunks(data).flatten() == data,
        usb_chunks(data).len() == (data.len() + 63) / 64,
        forall|i: int| 0 <= i < usb_chunks(data).len() ==> 0 < #[trigger] usb_chunks(data)[i].len() <= 64,
        forall|i: int| 0 <= i < usb_chunks(data).len() - 1 ==> #[trigger] usb_chunks(data)[i].len() == 64,
    decreases data.len(),
{
    let c = usb_chunks(data);
    if data.len() == 0 {
        assert(c =~= Seq::<Seq<u8>>::empty());
    } else if data.len() <= 64 {
        c.lemma_flatten_one_element();
    } else {
        let rest = usb_chunks(data.skip(64));
        lemma_usb_chunks_flatten(data.skip(64));
        assert(c.drop_first() =~= rest);
        assert(c.flatten() == data.take(64) + rest.flatten());
        assert(data.take(64) + data.skip(64) =~= data);
        assert forall|i: int| 0 <= i < c.len() implies 0 < #[trigger] c[i].len() <= 64 by {
            if i > 0 {
                assert(c[i] == rest[i - 1]);
            }
        }
        assert forall|i: int| 0 <= i < c.len() - 1 implies #[trigger] c[i].len() == 64 by {
            if i > 0 {
                assert(c[i] == rest[i - 1]);
            }
        }
    }
}

proof fn lemma_usb_chunks_take_flatten(data: Seq<u8>, m: nat)
    requires
        m <= usb_chunks(data).len(),
    ensures
        usb_chunks(data).take(m as int).flatten()
            == data.take(if 64 * m < data.len() { 64 * m as int } else { data.len() as int }),
    decreases data.len(),
{
    let c = usb_chunks(data);
    if m == 0 {
        assert(c.take(0) =~= Seq::<Seq<u8>>::empty());
        assert(data.take(0) =~= Seq::<u8>::empty());
    } else if data.len() <= 64 {
        assert(c.take(m as int) =~= seq![data]);
        seq![data].lemma_flatten_one_element();
        assert(data.take(data.len() as int) =~= data);
    } else {
        let rest = data.skip(64);
        assert(c =~= seq![data.take(64)] + usb_chunks(rest));
        lemma_usb_chunks_take_flatten(rest, (m - 1) as nat);
        let t = c.take(m as int);
        assert(t.first() == data.take(64));
        assert(t.drop_first() =~= usb_chunks(rest).take(m - 1));
        let k = if 64 * (m - 1) < rest.len() { 64 * (m - 1) as int } else { rest.len() as int };
        assert(t.flatten() == data.take(64) + rest.take(k));
        assert(data.take(64) + rest.take(k) =~= data.take(64 + k));
    }
}

/// Bytes offered to the outbound queue are never reordered or cut in the
/// middle: the queue keeps what it held, and what joins it is, chunk by
/// chunk, the start of the data: all of it when it fits in the free slots,
/// otherwise exactly as many whole 64-byte chunks as there are free slots.
pub proof fn lemma_enqueue_keeps_prefix(queue: Seq<Seq<u8>>, data: Seq<u8>)
    requires
        queue.len() <= OUTBOUND_CAPACITY,
    ensures
        enqueue_chunks(queue, data).take(queue.len() as int) == queue,
        ({
            let room = OUTBOUND_CAPACITY - queue.len();
            enqueue_chunks(queue, data).skip(queue.len() as int).flatten()
                == data.take(if 64 * room < data.len() { 64 * room } else { data.len() as int })
        }),
{
    let c = usb_chunks(data);
    let room = OUTBOUND_CAPACITY - queue.len();
    let m = if c.len() < room { c.len() as int } else { room };
    let q2 = enqueue_chunks(queue, data);
    assert(q2.take(queue.len() as int) =~= queue);
    assert(q2.skip(queue.len() as int) =~= c.take(m));
    lemma_usb_chunks_flatten(data);
    lemma_usb_chunks_take_flatten(data, m as nat);
    if c.len() < room {
        assert(64 * m >= data.len()) by {
            assert(c.len() == (data.len() + 63) / 64);
        }
    }
}

/// What the outbound queue holds after offering it the chunks of `data`:
/// chunks are taken in order until the queue is full, the rest is dropped.
pub open spec fn enqueue_chunks(queue: Seq<Seq<u8>>, data: Seq<u8>) -> Seq<Seq<u8>> {
    let chunks = usb_chunks(data);
    let room = OUTBOUND_CAPACITY - queue.len();
    queue + chunks.take(if chunks.len() < room { chunks.len() as int } else { room })
}
// ---------------------------------------------------------------------------
// The queues
// ---------------------------------------------------------------------------

/// A chunk of outbound bytes, at most one USB packet.
pub type Chunk = heapless::Vec<u8, 64>;
/// The outbound chunk queue: an `embassy_sync` channel of 32 chunks. The
/// channel type is generic over a mutex trait the verifier is not given, so
/// it is held opaquely here and reached only through the functions below;
/// the link is used from one context, so the channel's own mutex is a no-op.
#[verifier::external_body]
pub struct OutboundQueue {
    channel: Channel<NoopRawMutex, heapless::Vec<u8, 64>, 32>,
}

/// The command queue: an `embassy_sync` channel of 4 commands, held like
/// the outbound queue.
#[verifier::external_body]
pub struct CommandQueue {
    channel: Channel<NoopRawMutex, UmbilicalCommand, 4>,
}

/// Makes `heapless::Vec`, the chunk type, known to the verifier (opaque).
#[verifier::external_type_specification]
#[verifier::external_body]
#[verifier::reject_recursive_types(T)]
pub struct ExHeaplessVec<T, const N: usize>(heapless::Vec<T, N>);

/// The bytes a chunk holds.
pub uninterp spec fn chunk_bytes(c: heapless::Vec<u8, 64>) -> Seq<u8>;

/// The chunks an outbound queue holds, oldest first, each by its bytes.
pub uninterp spec fn outbound_contents(q: OutboundQueue) -> Seq<Seq<u8>>;

/// The commands a command queue holds, oldest first.
pub uninterp spec fn command_contents(q: CommandQueue) -> Seq<UmbilicalCommand>;

/// `heapless::Vec::new`: an empty chunk.
#[verifier::external_body]
fn chunk_new() -> (r: Chunk)
    ensures
        chunk_bytes(r) == Seq::<u8>::empty(),
{
    heapless::Vec::new()
}

/// `heapless::Vec::extend_from_slice`: appends all of `bytes` when they fit
/// in the 64-byte capacity, and otherwise changes nothing and fails.
#[verifier::external_body]
fn chunk_extend(c: &mut Chunk, bytes: &[u8]) -> (ok: bool)
    ensures
        ok == (chunk_bytes(*old(c)).len() + bytes@.len() <= 64),
        ok ==> chunk_bytes(*final(c)) == chunk_bytes(*old(c)) + bytes@,
        !ok ==> chunk_bytes(*final(c)) == chunk_bytes(*old(c)),
{
    c.extend_from_slice(bytes).is_ok()
}

/// `heapless::Vec::as_slice`: the chunk's bytes.
#[verifier::external_body]
fn chunk_as_slice(c: &Chunk) -> (r: &[u8])
    ensures
        r@ == chunk_bytes(*c),
{
    c.as_slice()
}

/// `Channel::new` for the outbound queue: empty.
#[verifier::external_body]
fn outbound_new() -> (r: OutboundQueue)
    ensures
        outbound_contents(r) == Seq::<Seq<u8>>::empty(),
{
    OutboundQueue { channel: Channel::new() }
}

/// `Channel::try_send` on the outbound queue: the chunk joins the back
/// unless the queue holds its 32 chunks already, in which case nothing
/// changes and the send fails.
#[verifier::external_body]
fn outbound_try_send(q: &mut OutboundQueue, c: Chunk) -> (ok: bool)
    ensures
        ok == (outbound_contents(*old(q)).len() < 32),
        ok ==> outbound_contents(*final(q)) == outbound_contents(*old(q)).push(chunk_bytes(c)),
        !ok ==> outbound_contents(*final(q)) == outbound_contents(*old(q)),
{
    q.channel.try_send(c).is_ok()
}

/// `Channel::try_receive` on the outbound queue: the oldest chunk, removed,
/// or nothing when the queue is empty.
#[verifier::external_body]
fn outbound_try_receive(q: &mut OutboundQueue) -> (r: Option<Chunk>)
    ensures
        match r {
            Some(c) => {
                &&& outbound_contents(*old(q)).len() > 0
                &&& chunk_bytes(c) == outbound_contents(*old(q))[0]
                &&& outbound_contents(*final(q)) == outbound_contents(*old(q)).drop_first()
            },
            None => {
                &&& outbound_contents(*old(q)).len() == 0
                &&& outbound_contents(*final(q)) == outbound_contents(*old(q))
            },
        },
{
    q.channel.try_receive().ok()
}

/// `Channel::new` for the command queue: empty.
#[verifier::external_body]
fn commands_new() -> (r: CommandQueue)
    ensures
        command_contents(r) == Seq::<UmbilicalCommand>::empty(),
{
    CommandQueue { channel: Channel::new() }
}

/// `Channel::try_send` on the command queue: the command joins the back
/// unless 4 are queued already, in which case nothing changes.
#[verifier::external_body]
fn commands_try_send(q: &mut CommandQueue, cmd: UmbilicalCommand) -> (ok: bool)
    ensures
        ok == (command_contents(*old(q)).len() < 4),
        ok ==> command_contents(*final(q)) == command_contents(*old(q)).push(cmd),
        !ok ==> command_contents(*final(q)) == command_contents(*old(q)),
{
    q.channel.try_send(cmd).is_ok()
}

/// `Channel::try_receive` on the command queue: the oldest command, removed,
/// or nothing when the queue is empty.
#[verifier::external_body]
fn commands_try_receive(q: &mut CommandQueue) -> (r: Option<UmbilicalCommand>)
    ensures
        match r {
            Some(c) => {
                &&& command_contents(*old(q)).len() > 0
                &&& c == command_contents(*old(q))[0]
                &&& command_contents(*final(q)) == command_contents(*old(q)).drop_first()
            },
            None => {
                &&& command_contents(*old(q)).len() == 0
                &&& command_contents(*final(q)) == command_contents(*old(q))
            },
        },
{
    q.channel.try_receive().ok()
}

/// Shared state of the umbilical link.
pub struct Umbilical {
    heartbeat_ever: bool,
    last_heartbeat_ms: u32,
    dump_in_progress: bool,
    outbound: OutboundQueue,
    commands: CommandQueue,
}

impl Umbilical {
    /// Whether any heartbeat has ever been received.
    pub closed spec fn heard(&self) -> bool {
        self.heartbeat_ever
    }

    /// Clock reading, in ms, of the last heartbeat.
    pub closed spec fn last_heartbeat(&self) -> u32 {
        self.last_heartbeat_ms
    }

    /// Whether telemetry and log text are held back for a dump.
    pub closed spec fn dumping(&self) -> bool {
        self.dump_in_progress
    }

    /// Chunks waiting to go out, oldest first.
    pub closed spec fn outbound_chunks(&self) -> Seq<Seq<u8>> {
        outbound_contents(self.outbound)
    }

    /// Commands waiting for the flight loop, oldest first.
    pub closed spec fn pending_commands(&self) -> Seq<UmbilicalCommand> {
        command_contents(self.commands)
    }

    /// Both queues within their capacities.
    pub open spec fn wf(&self) -> bool {
        &&& self.outbound_chunks().len() <= OUTBOUND_CAPACITY
        &&& self.pending_commands().len() <= COMMAND_CAPACITY
    }

    /// A link that has heard nothing and holds nothing.
    pub fn new() -> (r: Umbilical)
        ensures
            r.wf(),
            !r.heard(),
            r.last_heartbeat() == 0,
            !r.dumping(),
            r.outbound_chunks() == Seq::<Seq<u8>>::empty(),
            r.pending_commands() == Seq::<UmbilicalCommand>::empty(),
    {
        Umbilical {
            heartbeat_ever: false,
            last_heartbeat_ms: 0,
            dump_in_progress: false,
            outbound: outbound_new(),
            commands: commands_new(),
        }
    }

    /// Offers the chunks of `data` to the outbound queue in order; the first
    /// that does not fit, and everything after it, is dropped.
    fn send_bytes(&mut self, data: &[u8])
        requires
            old(self).wf(),
        ensures
            final(self).wf(),
            final(self).outbound_chunks() == enqueue_chunks(old(self).outbound_chunks(), data@),
            final(self).pending_commands() == old(self).pending_commands(),
            final(self).heard() == old(self).heard(),
            final(self).last_heartbeat() == old(self).last_heartbeat(),
            final(self).dumping() == old(self).dumping(),
    {
        let ghost start = self.outbound_chunks();
        let ghost chunks = usb_chunks(data@);
        let n = data.len();
        let mut offset: usize = 0;
        let ghost mut sent: int = 0;
        proof {
            lemma_chunks_from(data@, 0);
        }
        while offset < n
            invariant
                n == data@.len(),
                offset <= n,
                0 <= sent <= chunks.len(),
                chunks == usb_chunks(data@),
                usb_chunks(data@.skip(offset as int)) == chunks.skip(sent),
                self.outbound_chunks() == start + chunks.take(sent),
                start.len() + sent <= OUTBOUND_CAPACITY,
                self.pending_commands() == old(self).pending_commands(),
                self.heard() == old(self).heard(),
                self.last_heartbeat() == old(self).last_heartbeat(),
                self.dumping() == old(self).dumping(),
            ensures
                offset >= n || start.len() + sent == OUTBOUND_CAPACITY,
            decreases n - offset,
        {
            let remaining = n - offset;
            let len = if remaining < CHUNK_SIZE { remaining } else { CHUNK_SIZE };
            let piece = slice_subrange(data, offset, offset + len);
            let mut chunk = chunk_new();
            let fits = chunk_extend(&mut chunk, piece);
            proof {
                assert(fits);
                assert(chunk_bytes(chunk) =~= data@.subrange(offset as int, offset + len));
                let rest = data@.skip(offset as int);
                lemma_chunks_step(rest);
                assert(rest.take(len as int) =~= chunk_bytes(chunk));
                assert(rest.skip(len as int) =~= data@.skip(offset + len));
                assert(chunks.skip(sent)[0] == chunks[sent]);
                assert(chunks[sent] == chunk_bytes(chunk));
                assert(chunks.skip(sent).skip(1) =~= chunks.skip(sent + 1));
                assert(chunks.take(sent + 1) =~= chunks.take(sent).push(chunk_bytes(chunk)));
            }
            let ghost cb = chunk_bytes(chunk);
            let sent_ok = outbound_try_send(&mut self.outbound, chunk);
            if !sent_ok {
                break;
            }
            proof {
                assert(self.outbound_chunks() =~= start + chunks.take(sent + 1));
                sent = sent + 1;
            }
            offset += len;
        }
        proof {
            if offset >= n {
                assert(data@.skip(offset as int) =~= Seq::<u8>::empty());
                assert(chunks.skip(sent).len() == 0);
                assert(sent == chunks.len());
            }
            assert(self.outbound_chunks() == enqueue_chunks(start, data@));
        }
    }
}

proof fn lemma_chunks_from(data: Seq<u8>, k: int)
    requires
        k == 0,
    ensures
        usb_chunks(data.skip(k)) == usb_chunks(data).skip(k),
{
    assert(data.skip(0) =~= data);
    assert(usb_chunks(data).skip(0) =~= usb_chunks(data));
}

proof fn lemma_chunks_step(data: Seq<u8>)
    requires
        data.len() > 0,
    ensures
        usb_chunks(data).len() > 0,
        usb_chunks(data)[0] == data.take(if data.len() < 64 { data.len() as int } else { 64 }),
        usb_chunks(data).skip(1) == usb_chunks(data.skip(if data.len() < 64 { data.len() as int } else { 64 })),
{
    if data.len() <= 64 {
        assert(data.take(data.len() as int) =~= data);
        assert(data.skip(data.len() as int) =~= Seq::<u8>::empty());
        assert(usb_chunks(data).skip(1) =~= Seq::<Seq<u8>>::empty());
        if data.len() == 64 {
            assert(data.take(64) =~= data);
        }
    } else {
        assert(usb_chunks(data).skip(1) =~= usb_chunks(data.skip(64)));
    }
}

// ---------------------------------------------------------------------------
// Link operations
// ---------------------------------------------------------------------------

/// Whether the ground station counts as connected at clock reading `now_ms`:
/// a heartbeat has been heard, less than the timeout ago (clock readings wrap).
pub fn is_connected(link: &Umbilical, now_ms: u32) -> (r: bool)
    ensures
        r == (link.heard() && (if now_ms >= link.last_heartbeat() {
            now_ms - link.last_heartbeat()
        } else {
            now_ms - link.last_heartbeat() + 4294967296
        }) < HEARTBEAT_TIMEOUT_MS),
{
    if !link.heartbeat_ever {
        return false;
    }
    now_ms.wrapping_sub(link.last_heartbeat_ms) < HEARTBEAT_TIMEOUT_MS
}

/// Records a heartbeat heard at clock reading `now_ms`.
pub fn record_heartbeat(link: &mut Umbilical, now_ms: u32)
    requires
        old(link).wf(),
    ensures
        final(link).wf(),
        final(link).heard(),
        final(link).last_heartbeat() == now_ms,
        final(link).dumping() == old(link).dumping(),
        final(link).outbound_chunks() == old(link).outbound_chunks(),
        final(link).pending_commands() == old(link).pending_commands(),
{
    link.last_heartbeat_ms = now_ms;
    link.heartbeat_ever = true;
}

/// Stamps a heartbeat as if the host had sent one (simulation support).
pub fn inject_heartbeat(link: &mut Umbilical, now_ms: u32)
    requires
        old(link).wf(),
    ensures
        final(link).wf(),
        final(link).heard(),
        final(link).last_heartbeat() == now_ms,
        final(link).dumping() == old(link).dumping(),
        final(link).outbound_chunks() == old(link).outbound_chunks(),
        final(link).pending_commands() == old(link).pending_commands(),
{
    record_heartbeat(link, now_ms);
}

/// Holds back telemetry and log text until [`end_dump`]: a dump must not be
/// interleaved with other lines.
pub fn begin_dump(link: &mut Umbilical)
    requires
        old(link).wf(),
    ensures
        final(link).wf(),
        final(link).dumping(),
        final(link).heard() == old(link).heard(),
        final(link).last_heartbeat() == old(link).last_heartbeat(),
        final(link).outbound_chunks() == old(link).outbound_chunks(),
        final(link).pending_commands() == old(link).pending_commands(),
{
    link.dump_in_progress = true;
}

/// Lets telemetry and log text out again.
pub fn end_dump(link: &mut Umbilical)
    requires
        old(link).wf(),
    ensures
        final(link).wf(),
        !final(link).dumping(),
        final(link).heard() == old(link).heard(),
        final(link).last_heartbeat() == old(link).last_heartbeat(),
        final(link).outbound_chunks() == old(link).outbound_chunks(),
        final(link).pending_commands() == old(link).pending_commands(),
{
    link.dump_in_progress = false;
}

/// Sends a string (status text, dump framing): its bytes are queued in
/// 64-byte chunks until the queue is full.
pub fn print_str(link: &mut Umbilical, s: &str)
    requires
        old(link).wf(),
    ensures
        final(link).wf(),
        final(link).outbound_chunks() == enqueue_chunks(old(link).outbound_chunks(), s.spec_bytes()),
        final(link).dumping() == old(link).dumping(),
        final(link).heard() == old(link).heard(),
        final(link).last_heartbeat() == old(link).last_heartbeat(),
        final(link).pending_commands() == old(link).pending_commands(),
{
    link.send_bytes(s.as_bytes());
}

/// Sends raw bytes (dump payload): queued in 64-byte chunks until the queue
/// is full.
pub fn print_bytes(link: &mut Umbilical, data: &[u8])
    requires
        old(link).wf(),
    ensures
        final(link).wf(),
        final(link).outbound_chunks() == enqueue_chunks(old(link).outbound_chunks(), data@),
        final(link).dumping() == old(link).dumping(),
        final(link).heard() == old(link).heard(),
        final(link).last_heartbeat() == old(link).last_heartbeat(),
        final(link).pending_commands() == old(link).pending_commands(),
{
    link.send_bytes(data);
}

/// Sends a formatted telemetry line, unless a dump is in progress.
pub fn emit_telemetry(link: &mut Umbilical, line: &[u8])
    requires
        old(link).wf(),
    ensures
        final(link).wf(),
        final(link).outbound_chunks() == (if old(link).dumping() {
            old(link).outbound_chunks()
        } else {
            enqueue_chunks(old(link).outbound_chunks(), line@)
        }),
        final(link).dumping() == old(link).dumping(),
        final(link).heard() == old(link).heard(),
        final(link).last_heartbeat() == old(link).last_heartbeat(),
        final(link).pending_commands() == old(link).pending_commands(),
{
    if link.dump_in_progress {
        return;
    }
    link.send_bytes(line);
}

/// Sends a formatted log line, unless a dump is in progress: log text must
/// never enter the binary dump stream.
pub fn emit_log_line(link: &mut Umbilical, line: &[u8])
    requires
        old(link).wf(),
    ensures
        final(link).wf(),
        final(link).outbound_chunks() == (if old(link).dumping() {
            old(link).outbound_chunks()
        } else {
            enqueue_chunks(old(link).outbound_chunks(), line@)
        }),
        final(link).dumping() == old(link).dumping(),
        final(link).heard() == old(link).heard(),
        final(link).last_heartbeat() == old(link).last_heartbeat(),
        final(link).pending_commands() == old(link).pending_commands(),
{
    if link.dump_in_progress {
        return;
    }
    link.send_bytes(line);
}

/// Takes the oldest queued outbound chunk, for the USB sender.
pub fn take_outbound(link: &mut Umbilical) -> (r: Option<Vec<u8>>)
    requires
        old(link).wf(),
    ensures
        final(link).wf(),
        match r {
            Some(c) => {
                &&& old(link).outbound_chunks().len() > 0
                &&& c@ == old(link).outbound_chunks()[0]
                &&& final(link).outbound_chunks() == old(link).outbound_chunks().drop_first()
            },
            None => {
                &&& old(link).outbound_chunks().len() == 0
                &&& final(link).outbound_chunks() == old(link).outbound_chunks()
            },
        },
        final(link).dumping() == old(link).dumping(),
        final(link).heard() == old(link).heard(),
        final(link).last_heartbeat() == old(link).last_heartbeat(),
        final(link).pending_commands() == old(link).pending_commands(),
{
    match outbound_try_receive(&mut link.outbound) {
        Some(c) => Some(vstd::slice::slice_to_vec(chunk_as_slice(&c))),
        None => None,
    }
}

/// Queues a command for the flight loop; it is dropped when the queue is full.
pub fn push_command(link: &mut Umbilical, cmd: UmbilicalCommand)
    requires
        old(link).wf(),
    ensures
        final(link).wf(),
        final(link).pending_commands() == (if old(link).pending_commands().len() < COMMAND_CAPACITY {
            old(link).pending_commands().push(cmd)
        } else {
            old(link).pending_commands()
        }),
        final(link).dumping() == old(link).dumping(),
        final(link).heard() == old(link).heard(),
        final(link).last_heartbeat() == old(link).last_heartbeat(),
        final(link).outbound_chunks() == old(link).outbound_chunks(),
{
    let _ = commands_try_send(&mut link.commands, cmd);
}

/// Takes the oldest pending command, if any (polled once per flight-loop cycle).
pub fn try_recv_command(link: &mut Umbilical) -> (r: Option<UmbilicalCommand>)
    requires
        old(link).wf(),
    ensures
        final(link).wf(),
        match r {
            Some(c) => {
                &&& old(link).pending_commands().len() > 0
                &&& c == old(link).pending_commands()[0]
                &&& final(link).pending_commands() == old(link).pending_commands().drop_first()
            },
            None => {
                &&& old(link).pending_commands().len() == 0
                &&& final(link).pending_commands() == old(link).pending_commands()
            },
        },
        final(link).dumping() == old(link).dumping(),
        final(link).heard() == old(link).heard(),
        final(link).last_heartbeat() == old(link).last_heartbeat(),
        final(link).outbound_chunks() == old(link).outbound_chunks(),
{
    commands_try_receive(&mut link.commands)
}

/// What the receiver does with one USB packet from the host, after noting any
/// heartbeat in it.
pub enum UsbInput {
    /// The packet was exactly `<H>`: nothing more to do.
    Heartbeat,
    /// A `<T,...>` packet: its fields when there are exactly four of them,
    /// for the caller to parse as coordinates; `None` when it cannot hold four.
    BlimsTarget(Option<Vec<Vec<u8>>>),
    /// Any other packet: the command it stands for, already queued, if it is
    /// a known token. The receiver pauses before the next packet.
    Token(Option<UmbilicalCommand>),
}

/// Handles one USB packet received at clock reading `now_ms`. A `<H>`
/// anywhere in it counts as a heartbeat; a known command token is queued.
pub fn receive_usb_packet(link: &mut Umbilical, data: &[u8], now_ms: u32) -> (r: UsbInput)
    requires
        old(link).wf(),
    ensures
        final(link).wf(),
        ({
            let hb = exists|i: int| window_at(data@, seq![60u8, 72u8, 62u8], i);
            &&& final(link).heard() == (old(link).heard() || hb)
            &&& final(link).last_heartbeat() == (if hb { now_ms } else { old(link).last_heartbeat() })
        }),
        final(link).dumping() == old(link).dumping(),
        final(link).outbound_chunks() == old(link).outbound_chunks(),
        data@ == seq![60u8, 72u8, 62u8] ==> r is Heartbeat && final(link).pending_commands() == old(link).pending_commands(),
        data@ != seq![60u8, 72u8, 62u8] && is_target_packet(data@) ==> {
            &&& final(link).pending_commands() == old(link).pending_commands()
            &&& match r {
                UsbInput::BlimsTarget(fields) => {
                    let parts = split_commas(data@.subrange(3, data@.len() - 1));
                    match fields {
                        Some(f) => parts.len() == 4 && byte_vecs(f@) == parts,
                        None => parts.len() != 4,
                    }
                },
                _ => false,
            }
        },
        data@ != seq![60u8, 72u8, 62u8] && !is_target_packet(data@) ==> {
            &&& r == UsbInput::Token(token_command(data@))
            &&& final(link).pending_commands() == match token_command(data@) {
                Some(c) => if old(link).pending_commands().len() < COMMAND_CAPACITY {
                    old(link).pending_commands().push(c)
                } else {
                    old(link).pending_commands()
                },
                None => old(link).pending_commands(),
            }
        },
{
    let heartbeat: [u8; 3] = [60u8, 72u8, 62u8];
    let hb_slice = array_as_slice(&heartbeat);
    let found = find_window(data, hb_slice);
    proof {
        assert(hb_slice@ =~= seq![60u8, 72u8, 62u8]);
    }
    if found.is_some() {
        record_heartbeat(link, now_ms);
    }
    if data.len() == 3 && data[0] == 60u8 && data[1] == 72u8 && data[2] == 62u8 {
        assert(data@ =~= seq![60u8, 72u8, 62u8]);
        return UsbInput::Heartbeat;
    }
    assert(data@ != seq![60u8, 72u8, 62u8]);
    if data.len() >= 4 && data[0] == 60u8 && data[1] == 84u8 && data[2] == 44u8 && data[data.len() - 1] == 62u8 {
        let body = slice_subrange(data, 3, data.len() - 1);
        let parts = split_fields(body);
        if parts.len() == 4 {
            return UsbInput::BlimsTarget(Some(parts));
        }
        return UsbInput::BlimsTarget(None);
    }
    let cmd = parse_token(data);
    if let Some(c) = cmd {
        push_command(link, c);
    }
    UsbInput::Token(cmd)
}

} // verus!
