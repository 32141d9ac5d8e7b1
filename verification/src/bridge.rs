//! The sync-transport bridge.
//!
//! The bridge presents a synchronous read/write facade to the engine while
//! the transport behind it is asynchronous.  It owns two byte buffers: the
//! read buffer holds bytes already fetched from the transport and not yet
//! consumed by the engine; the write buffer holds bytes accepted from the
//! engine and not yet delivered to the transport.  Neither facade operation
//! suspends: an empty read buffer makes `read` report would-block (`None`),
//! and `write` always accepts by appending.  The asynchronous side is split
//! into its two halves: `supply` lands the bytes a transport fill fetched,
//! and `extract_front` hands a transport flush the bytes it is to deliver.

use vstd::prelude::*;

verus! {

/// Removes and returns the first `k` bytes of `v`.
fn take_front(v: &mut Vec<u8>, k: usize) -> (front: Vec<u8>)
    requires
        k <= old(v)@.len(),
    ensures
        front@ == old(v)@.subrange(0, k as int),
        final(v)@ == old(v)@.subrange(k as int, old(v)@.len() as int),
{
    let mut rest = v.split_off(k);
    core::mem::swap(v, &mut rest);
    rest
}

/// The buffering adapter between the engine's synchronous facade and the
/// asynchronous transport.
pub struct Bridge {
    /// Bytes fetched from the transport, not yet consumed by the engine.
    pub read_buf: Vec<u8>,
    /// Bytes accepted from the engine, not yet delivered to the transport.
    pub write_buf: Vec<u8>,
}

impl Bridge {
    /// The bytes fetched from the transport and not yet read by the engine.
    pub open spec fn read_buffer(&self) -> Seq<u8> {
        self.read_buf@
    }

    /// The bytes accepted from the engine and not yet delivered to the
    /// transport.
    pub open spec fn write_buffer(&self) -> Seq<u8> {
        self.write_buf@
    }

    /// Creates a bridge with both buffers empty.
    pub fn new() -> (b: Bridge)
        ensures
            b.read_buffer() == Seq::<u8>::empty(),
            b.write_buffer() == Seq::<u8>::empty(),
    {
        Bridge { read_buf: Vec::new(), write_buf: Vec::new() }
    }

    /// The synchronous read facade.  Returns `None` (would-block) exactly
    /// when the read buffer is empty; otherwise removes and returns the first
    /// `min(max, available)` bytes.  Never suspends and never returns an
    /// empty success.
    pub fn read(&mut self, max: usize) -> (r: Option<Vec<u8>>)
        requires
            max >= 1,
        ensures
            old(self).read_buffer().len() == 0 ==> (r is None
                && *final(self) == *old(self)),
            old(self).read_buffer().len() > 0 ==> {
                let k = vstd::math::min(max as int, old(self).read_buffer().len() as int);
                r matches Some(bytes)
                    && bytes@ == old(self).read_buffer().subrange(0, k)
                    && bytes@.len() > 0
                    && final(self).read_buffer() == old(self).read_buffer().subrange(
                    k,
                    old(self).read_buffer().len() as int,
                )
            },
            final(self).write_buffer() == old(self).write_buffer(),
    {
        if self.read_buf.len() == 0 {
            None
        } else {
            let k = if max < self.read_buf.len() {
                max
            } else {
                self.read_buf.len()
            };
            Some(take_front(&mut self.read_buf, k))
        }
    }

    /// The synchronous write facade.  Buffering is unbounded in this design,
    /// so the write never would-blocks: every byte is accepted by appending
    /// to the write buffer, and the full length is reported.
    pub fn write(&mut self, data: &[u8]) -> (n: usize)
        requires
            old(self).write_buffer().len() + data@.len() <= usize::MAX,
        ensures
            n == data@.len(),
            final(self).write_buffer() == old(self).write_buffer() + data@,
            final(self).read_buffer() == old(self).read_buffer(),
    {
        self.write_buf.extend_from_slice(data);
        data.len()
    }

    /// Lands the bytes that a transport fill fetched into the read buffer,
    /// behind whatever is already waiting there.
    pub fn supply(&mut self, bytes: &[u8])
        requires
            old(self).read_buffer().len() + bytes@.len() <= usize::MAX,
        ensures
            final(self).read_buffer() == old(self).read_buffer() + bytes@,
            final(self).write_buffer() == old(self).write_buffer(),
    {
        self.read_buf.extend_from_slice(bytes);
    }

    /// Removes and returns the first `k` bytes of the write buffer, in
    /// order, for a transport flush to deliver.
    pub fn extract_front(&mut self, k: usize) -> (front: Vec<u8>)
        requires
            k <= old(self).write_buffer().len(),
        ensures
            front@ == old(self).write_buffer().subrange(0, k as int),
            final(self).write_buffer() == old(self).write_buffer().subrange(
                k as int,
                old(self).write_buffer().len() as int,
            ),
            final(self).read_buffer() == old(self).read_buffer(),
    {
        take_front(&mut self.write_buf, k)
    }

    /// The number of bytes waiting to be delivered to the transport.
    pub fn pending_len(&self) -> (n: usize)
        ensures
            n == self.write_buffer().len(),
    {
        self.write_buf.len()
    }

    /// Whether the write buffer holds bytes not yet delivered to the
    /// transport.  The handshake driver consults this to pick its next
    /// transport step.
    pub fn has_pending_write(&self) -> (b: bool)
        ensures
            b <==> self.write_buffer().len() > 0,
    {
        self.write_buf.len() > 0
    }

    /// The number of bytes available to the synchronous read facade.
    pub fn available(&self) -> (n: usize)
        ensures
            n == self.read_buffer().len(),
    {
        self.read_buf.len()
    }
}

} // verus!
