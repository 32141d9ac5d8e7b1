//! A transport with scripted behaviour.
//!
//! The adapter suspends only inside the bridge's fill and flush steps, and
//! what those steps do is decided by the transport at the other end.  This
//! module models that boundary: a transport whose responses are laid out in
//! advance, byte for byte, so that every interleaving the adapter can meet
//! (partial flushes, empty fills, I/O failures, a shutdown that fails) can be
//! driven deterministically and reasoned about.  The `delivered` field is the
//! transport's view of the connection: every byte it has observed, in the
//! order it observed them.

use vstd::prelude::*;

use crate::bridge::Bridge;
use crate::errors::TransportError;

verus! {

/// What the transport does with one fill or flush step: accept up to the
/// given number of bytes, or fail with an I/O error.
#[derive(Clone, Copy, Debug)]
pub enum StepResponse {
    /// Accept up to this many bytes (a fill delivers up to this many, a
    /// flush takes up to this many).
    Accept(usize),
    /// Report an I/O failure for this step.
    Fail(TransportError),
}

/// A byte-stream transport whose responses follow a script.  Once a plan is
/// exhausted, every further step accepts as much as it can.
pub struct ScriptedTransport {
    /// Bytes the peer will deliver, in order; a fill takes from the front.
    pub peer_bytes: Vec<u8>,
    /// One response per fill step, in order.
    pub fill_plan: Vec<StepResponse>,
    /// One response per flush step, in order.
    pub flush_plan: Vec<StepResponse>,
    /// How the transport answers a shutdown: `None` means success.
    pub shutdown_response: Option<TransportError>,
    /// Every byte the transport has observed, in the order observed.
    pub delivered: Vec<u8>,
    /// How many fill steps have been performed.
    pub fills: usize,
    /// How many flush steps have been performed.
    pub flushes: usize,
    /// How many shutdowns have been attempted.
    pub shutdowns: usize,
}

impl ScriptedTransport {
    /// The response the next fill step will get.
    pub open spec fn next_fill_response(&self) -> StepResponse {
        if self.fills < self.fill_plan@.len() {
            self.fill_plan@[self.fills as int]
        } else {
            StepResponse::Accept(usize::MAX)
        }
    }

    /// The response the next flush step will get.
    pub open spec fn next_flush_response(&self) -> StepResponse {
        if self.flushes < self.flush_plan@.len() {
            self.flush_plan@[self.flushes as int]
        } else {
            StepResponse::Accept(usize::MAX)
        }
    }

    /// How many transport steps have been performed in all.
    pub open spec fn steps(&self) -> int {
        self.fills + self.flushes
    }

    /// A transport that accepts every step in full and shuts down cleanly.
    pub fn new(peer_bytes: Vec<u8>) -> (t: ScriptedTransport)
        ensures
            t.peer_bytes == peer_bytes,
            t.fill_plan@.len() == 0,
            t.flush_plan@.len() == 0,
            t.shutdown_response is None,
            t.delivered@ == Seq::<u8>::empty(),
            t.fills == 0,
            t.flushes == 0,
            t.shutdowns == 0,
    {
        ScriptedTransport {
            peer_bytes,
            fill_plan: Vec::new(),
            flush_plan: Vec::new(),
            shutdown_response: None,
            delivered: Vec::new(),
            fills: 0,
            flushes: 0,
            shutdowns: 0,
        }
    }

    /// One asynchronous fill step: await new bytes from the transport into
    /// the bridge's read buffer and report how many were fetched.  Zero
    /// signals that the peer has nothing more (end of stream or no
    /// progress).
    pub fn fill(&mut self, bridge: &mut Bridge) -> (r: Result<usize, TransportError>)
        requires
            old(self).fills < usize::MAX,
            old(bridge).read_buffer().len() + old(self).peer_bytes@.len() <= usize::MAX,
        ensures
            final(self).fills == old(self).fills + 1,
            final(self).flushes == old(self).flushes,
            final(self).shutdowns == old(self).shutdowns,
            final(self).fill_plan == old(self).fill_plan,
            final(self).flush_plan == old(self).flush_plan,
            final(self).shutdown_response == old(self).shutdown_response,
            final(self).delivered == old(self).delivered,
            final(bridge).write_buffer() == old(bridge).write_buffer(),
            old(self).next_fill_response() matches StepResponse::Fail(e) ==> (r == Err::<
                usize,
                TransportError,
            >(e) && final(self).peer_bytes == old(self).peer_bytes && *final(bridge) == *old(
                bridge,
            )),
            old(self).next_fill_response() matches StepResponse::Accept(n) ==> {
                let k = vstd::math::min(n as int, old(self).peer_bytes@.len() as int);
                r == Ok::<usize, TransportError>(k as usize)
                    && final(bridge).read_buffer() == old(bridge).read_buffer() + old(
                    self,
                ).peer_bytes@.subrange(0, k)
                    && final(self).peer_bytes@ == old(self).peer_bytes@.subrange(
                    k,
                    old(self).peer_bytes@.len() as int,
                )
            },
    {
        let response = if self.fills < self.fill_plan.len() {
            self.fill_plan[self.fills]
        } else {
            StepResponse::Accept(usize::MAX)
        };
        self.fills = self.fills + 1;
        match response {
            StepResponse::Fail(e) => Err(e),
            StepResponse::Accept(n) => {
                let k = if n < self.peer_bytes.len() {
                    n
                } else {
                    self.peer_bytes.len()
                };
                let mut rest = self.peer_bytes.split_off(k);
                core::mem::swap(&mut self.peer_bytes, &mut rest);
                bridge.supply(rest.as_slice());
                Ok(k)
            },
        }
    }

    /// One asynchronous flush step: await delivery of write-buffer bytes to
    /// the transport and report how many were actually sent.  The bytes
    /// leave the bridge from the front and arrive in `delivered` in the same
    /// order: nothing is reordered, duplicated or dropped.
    pub fn flush(&mut self, bridge: &mut Bridge) -> (r: Result<usize, TransportError>)
        requires
            old(self).flushes < usize::MAX,
            old(self).delivered@.len() + old(bridge).write_buffer().len() <= usize::MAX,
        ensures
            final(self).flushes == old(self).flushes + 1,
            final(self).fills == old(self).fills,
            final(self).shutdowns == old(self).shutdowns,
            final(self).fill_plan == old(self).fill_plan,
            final(self).flush_plan == old(self).flush_plan,
            final(self).shutdown_response == old(self).shutdown_response,
            final(self).peer_bytes == old(self).peer_bytes,
            final(bridge).read_buffer() == old(bridge).read_buffer(),
            old(self).next_flush_response() matches StepResponse::Fail(e) ==> (r == Err::<
                usize,
                TransportError,
            >(e) && final(self).delivered == old(self).delivered && *final(bridge) == *old(
                bridge,
            )),
            old(self).next_flush_response() matches StepResponse::Accept(n) ==> {
                let k = vstd::math::min(n as int, old(bridge).write_buffer().len() as int);
                r == Ok::<usize, TransportError>(k as usize)
                    && final(self).delivered@ == old(self).delivered@ + old(
                    bridge,
                ).write_buffer().subrange(0, k)
                    && final(bridge).write_buffer() == old(bridge).write_buffer().subrange(
                    k,
                    old(bridge).write_buffer().len() as int,
                )
            },
    {
        let response = if self.flushes < self.flush_plan.len() {
            self.flush_plan[self.flushes]
        } else {
            StepResponse::Accept(usize::MAX)
        };
        self.flushes = self.flushes + 1;
        match response {
            StepResponse::Fail(e) => Err(e),
            StepResponse::Accept(n) => {
                let pending = bridge.pending_len();
                let k = if n < pending {
                    n
                } else {
                    pending
                };
                let sent = bridge.extract_front(k);
                self.delivered.extend_from_slice(sent.as_slice());
                Ok(k)
            },
        }
    }

    /// One transport-level shutdown attempt.
    pub fn shutdown(&mut self) -> (r: Result<(), TransportError>)
        requires
            old(self).shutdowns < usize::MAX,
        ensures
            final(self).shutdowns == old(self).shutdowns + 1,
            final(self).fills == old(self).fills,
            final(self).flushes == old(self).flushes,
            final(self).delivered == old(self).delivered,
            final(self).peer_bytes == old(self).peer_bytes,
            final(self).fill_plan == old(self).fill_plan,
            final(self).flush_plan == old(self).flush_plan,
            final(self).shutdown_response == old(self).shutdown_response,
            r == (match old(self).shutdown_response {
                Some(e) => Err::<(), TransportError>(e),
                None => Ok::<(), TransportError>(()),
            }),
    {
        self.shutdowns = self.shutdowns + 1;
        match &self.shutdown_response {
            Some(e) => Err(*e),
            None => Ok(()),
        }
    }
}

} // verus!
