//! The RFD900x radio link: every transmission starts with a four-byte sync
//! word, and the receiver scans the byte stream for it before reading a
//! packet.

use vstd::prelude::*;

verus! {

/// The sync word, in the order it is sent ("CRT!" scrambled).
pub open spec fn sync_word() -> Seq<u8> {
    seq![0x67u8, 0x59u8, 0x5Du8, 0x3Eu8]
}

/// The sync word as a little-endian number.
pub const SYNC_WORD_VALUE: u32 = 0x3E5D5967;

/// The sync word sent byte by byte is the little-endian layout of its
/// numeric value.
pub proof fn lemma_sync_word_value()
    ensures
        sync_word() == crate::bytes::le_u32(SYNC_WORD_VALUE),
{
    assert(sync_word() =~= crate::bytes::le_u32(SYNC_WORD_VALUE));
}

/// One step of the sync-word scanner: the number of sync bytes matched so far
/// after seeing `b`. A byte that continues the match extends it; one that
/// breaks it starts a new match when it is the first sync byte, and clears it
/// otherwise.
pub open spec fn sync_step_spec(matched: nat, b: u8) -> nat {
    if matched < 4 && b == sync_word()[matched as int] {
        matched + 1
    } else if b == sync_word()[0] {
        1
    } else {
        0
    }
}

/// The scanner state after seeing each byte of `s` in turn.
pub open spec fn sync_run(matched: nat, s: Seq<u8>) -> nat
    decreases s.len(),
{
    if s.len() == 0 {
        matched
    } else {
        sync_step_spec(sync_run(matched, s.drop_last()), s.last())
    }
}

/// The scanner for the sync word.
pub struct SyncScanner {
    matched: usize,
}

impl SyncScanner {
    /// The number of sync bytes matched so far.
    pub closed spec fn matched_spec(&self) -> nat {
        self.matched as nat
    }

    /// A scanner that has matched nothing.
    pub fn new() -> (r: SyncScanner)
        ensures
            r.matched_spec() == 0,
    {
        SyncScanner { matched: 0 }
    }

    /// Feeds one received byte; returns whether the whole sync word has now
    /// been seen. A scanner that has seen it stays so.
    pub fn feed(&mut self, b: u8) -> (found: bool)
        requires
            old(self).matched_spec() < 4,
        ensures
            final(self).matched_spec() == sync_step_spec(old(self).matched_spec(), b),
            found == (final(self).matched_spec() == 4),
    {
        let sync: [u8; 4] = [0x67u8, 0x59u8, 0x5Du8, 0x3Eu8];
        assert(sync@ =~= sync_word());
        if b == sync[self.matched] {
            self.matched = self.matched + 1;
        } else if b == sync[0] {
            self.matched = 1;
        } else {
            self.matched = 0;
        }
        self.matched == 4
    }
}

/// The scanner's state always says how much of the sync word ends the
/// stream seen so far: after any bytes, the last `matched` of them are the
/// first `matched` bytes of the sync word. So when the scanner reports the
/// whole word, the four bytes just received are the sync word.
pub proof fn lemma_sync_run_suffix(s: Seq<u8>)
    ensures
        sync_run(0, s) <= 4,
        sync_run(0, s) <= s.len(),
        s.skip(s.len() - sync_run(0, s)) == sync_word().take(sync_run(0, s) as int),
    decreases s.len(),
{
    if s.len() == 0 {
        assert(s.skip(0) =~= sync_word().take(0));
    } else {
        let p = s.drop_last();
        let b = s.last();
        lemma_sync_run_suffix(p);
        let m = sync_run(0, p);
        let m2 = sync_run(0, s);
        assert(m2 == sync_step_spec(m, b));
        if m < 4 && b == sync_word()[m as int] {
            assert(s.skip(s.len() - m2) =~= p.skip(p.len() - m).push(b));
            assert(sync_word().take(m2 as int) =~= sync_word().take(m as int).push(b));
        } else if b == sync_word()[0] {
            assert(s.skip(s.len() - 1) =~= seq![b]);
            assert(sync_word().take(1) =~= seq![b]);
        } else {
            assert(s.skip(s.len() as int) =~= sync_word().take(0));
        }
    }
}

/// When the scanner, run over a stream from nothing matched, reports the
/// whole sync word, the stream ends with the sync word.
pub proof fn lemma_sync_found(s: Seq<u8>)
    requires
        sync_run(0, s) == 4,
    ensures
        s.len() >= 4,
        s.subrange(s.len() - 4, s.len() as int) == sync_word(),
{
    lemma_sync_run_suffix(s);
    assert(sync_word().take(4) =~= sync_word());
    assert(s.skip(s.len() - 4) =~= s.subrange(s.len() - 4, s.len() as int));
}

/// The bytes sent for one transmission: the sync word, then the data.
pub fn transmission(data: &[u8]) -> (r: Vec<u8>)
    ensures
        r@ == sync_word() + data@,
{
    let mut r: Vec<u8> = vec![0x67u8, 0x59u8, 0x5Du8, 0x3Eu8];
    assert(r@ =~= sync_word());
    let mut i: usize = 0;
    while i < data.len()
        invariant
            i <= data@.len(),
            r@ == sync_word() + data@.subrange(0, i as int),
        decreases data@.len() - i,
    {
        r.push(data[i]);
        i += 1;
        assert(r@ =~= sync_word() + data@.subrange(0, i as int));
    }
    assert(data@.subrange(0, i as int) =~= data@);
    r
}

} // verus!
