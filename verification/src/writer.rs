//! Fixed-size text buffers that formatted output is written into: one that
//! keeps as much as fits (the telemetry and log lines) and one that refuses
//! a piece that does not fit (the CSV rows).

use vstd::prelude::*;
use vstd::string::StringSliceAdditionalSpecFns;

verus! {

/// A piece of text did not fit in the buffer.
#[derive(Clone, Copy, Debug, PartialEq, Eq, Structural)]
pub struct WriteError;

/// A fixed-size buffer filled from the start; text that does not fit is cut
/// off, and the write reports it.
pub struct BufWriter {
    buf: Vec<u8>,
    offset: usize,
}

impl BufWriter {
    /// The buffer's bytes.
    pub closed spec fn contents(&self) -> Seq<u8> {
        self.buf@
    }

    /// How many bytes have been written.
    pub closed spec fn used(&self) -> nat {
        self.offset as nat
    }

    /// The written bytes never run past the buffer.
    pub closed spec fn wf(&self) -> bool {
        self.offset <= self.buf@.len()
    }

    /// Writes into `buf` from its start.
    pub fn new(buf: Vec<u8>) -> (r: BufWriter)
        ensures
            r.wf(),
            r.contents() == buf@,
            r.used() == 0,
    {
        BufWriter { buf, offset: 0 }
    }

    /// Writes `bytes` after what was written, as many as fit; fails when
    /// some were cut off.
    pub fn write_bytes(&mut self, bytes: &[u8]) -> (r: Result<(), WriteError>)
        requires
            old(self).wf(),
        ensures
            final(self).wf(),
            ({
                let room = old(self).contents().len() - old(self).used();
                let n = if bytes@.len() < room { bytes@.len() as int } else { room };
                &&& final(self).used() == old(self).used() + n
                &&& final(self).contents().len() == old(self).contents().len()
                &&& final(self).contents().subrange(0, old(self).used() as int) == old(self).contents().subrange(0, old(self).used() as int)
                &&& final(self).contents().subrange(old(self).used() as int, final(self).used() as int) == bytes@.take(n)
                &&& (r is Ok <==> n == bytes@.len())
            }),
    {
        let remaining = self.buf.len() - self.offset;
        let len = if bytes.len() < remaining { bytes.len() } else { remaining };
        let start = self.offset;
        let cap = self.buf.len();
        let ghost before = self.buf@;
        let mut i: usize = 0;
        while i < len
            invariant
                i <= len,
                len <= bytes@.len(),
                start + len <= self.buf@.len(),
                self.buf@.len() == before.len(),
                before.len() == cap,
                self.offset == start,
                forall|k: int| 0 <= k < start ==> self.buf@[k] == before[k],
                forall|k: int| 0 <= k < i ==> self.buf@[start + k] == bytes@[k],
            decreases len - i,
        {
            self.buf.set(start + i, bytes[i]);
            i += 1;
        }
        self.offset = start + len;
        assert(self.buf@.subrange(0, start as int) =~= before.subrange(0, start as int));
        assert(self.buf@.subrange(start as int, (start + len) as int) =~= bytes@.take(len as int));
        if len < bytes.len() {
            Err(WriteError)
        } else {
            Ok(())
        }
    }

    /// Writes the bytes of `s`, as many as fit; fails when some were cut
    /// off.
    pub fn write_str(&mut self, s: &str) -> (r: Result<(), WriteError>)
        requires
            old(self).wf(),
        ensures
            final(self).wf(),
            ({
                let room = old(self).contents().len() - old(self).used();
                let n = if s.spec_bytes().len() < room { s.spec_bytes().len() as int } else { room };
                &&& final(self).used() == old(self).used() + n
                &&& final(self).contents().len() == old(self).contents().len()
                &&& final(self).contents().subrange(0, old(self).used() as int) == old(self).contents().subrange(0, old(self).used() as int)
                &&& final(self).contents().subrange(old(self).used() as int, final(self).used() as int) == s.spec_bytes().take(n)
                &&& (r is Ok <==> n == s.spec_bytes().len())
            }),
    {
        self.write_bytes(s.as_bytes())
    }

    /// How many bytes have been written.
    pub fn offset(&self) -> (r: usize)
        ensures
            r == self.used(),
    {
        self.offset
    }

    /// The bytes written so far.
    pub fn written(&self) -> (r: &[u8])
        requires
            self.wf(),
        ensures
            r@ == self.contents().subrange(0, self.used() as int),
    {
        vstd::slice::slice_subrange(self.buf.as_slice(), 0, self.offset)
    }
}

/// A fixed-size buffer filled from the start; a piece of text that does not
/// fit whole is refused and nothing of it is written.
pub struct WriteWrapper {
    buf: Vec<u8>,
    offset: usize,
}

impl WriteWrapper {
    /// The buffer's bytes.
    pub closed spec fn contents(&self) -> Seq<u8> {
        self.buf@
    }

    /// How many bytes have been written.
    pub closed spec fn used(&self) -> nat {
        self.offset as nat
    }

    /// The written bytes never run past the buffer.
    pub closed spec fn wf(&self) -> bool {
        self.offset <= self.buf@.len()
    }

    /// Writes into `buf` from its start.
    pub fn new(buf: Vec<u8>) -> (r: WriteWrapper)
        ensures
            r.wf(),
            r.contents() == buf@,
            r.used() == 0,
    {
        WriteWrapper { buf, offset: 0 }
    }

    /// Writes `bytes` after what was written if all of them fit; otherwise
    /// fails and writes nothing.
    pub fn write_bytes(&mut self, bytes: &[u8]) -> (r: Result<(), WriteError>)
        requires
            old(self).wf(),
        ensures
            final(self).wf(),
            old(self).used() + bytes@.len() > old(self).contents().len() ==> r is Err && *final(self) == *old(self),
            old(self).used() + bytes@.len() <= old(self).contents().len() ==> {
                &&& r is Ok
                &&& final(self).used() == old(self).used() + bytes@.len()
                &&& final(self).contents() == old(self).contents().subrange(0, old(self).used() as int) + bytes@
                    + old(self).contents().subrange((old(self).used() + bytes@.len()) as int, old(self).contents().len() as int)
            },
    {
        let len = bytes.len();
        if len > self.buf.len() - self.offset {
            return Err(WriteError);
        }
        let start = self.offset;
        let cap = self.buf.len();
        let ghost before = self.buf@;
        let mut i: usize = 0;
        while i < len
            invariant
                i <= len,
                len == bytes@.len(),
                start + len <= self.buf@.len(),
                self.buf@.len() == before.len(),
                before.len() == cap,
                self.offset == start,
                forall|k: int| 0 <= k < start ==> self.buf@[k] == before[k],
                forall|k: int| start + len <= k < before.len() ==> self.buf@[k] == before[k],
                forall|k: int| 0 <= k < i ==> self.buf@[start + k] == bytes@[k],
            decreases len - i,
        {
            self.buf.set(start + i, bytes[i]);
            i += 1;
        }
        self.offset = start + len;
        assert(self.buf@ =~= before.subrange(0, start as int) + bytes@ + before.subrange(start + len, before.len() as int));
        Ok(())
    }

    /// Writes the bytes of `s` if they all fit; otherwise fails and writes
    /// nothing.
    pub fn write_str(&mut self, s: &str) -> (r: Result<(), WriteError>)
        requires
            old(self).wf(),
        ensures
            final(self).wf(),
            old(self).used() + s.spec_bytes().len() > old(self).contents().len() ==> r is Err && *final(self) == *old(self),
            old(self).used() + s.spec_bytes().len() <= old(self).contents().len() ==> {
                &&& r is Ok
                &&& final(self).used() == old(self).used() + s.spec_bytes().len()
                &&& final(self).contents() == old(self).contents().subrange(0, old(self).used() as int) + s.spec_bytes()
                    + old(self).contents().subrange((old(self).used() + s.spec_bytes().len()) as int, old(self).contents().len() as int)
            },
    {
        self.write_bytes(s.as_bytes())
    }

    /// How many bytes have been written.
    pub fn offset(&self) -> (r: usize)
        ensures
            r == self.used(),
    {
        self.offset
    }

    /// The bytes written so far.
    pub fn written(&self) -> (r: &[u8])
        requires
            self.wf(),
        ensures
            r@ == self.contents().subrange(0, self.used() as int),
    {
        vstd::slice::slice_subrange(self.buf.as_slice(), 0, self.offset)
    }
}

} // verus!
