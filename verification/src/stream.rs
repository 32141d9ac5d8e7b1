//! The post-handshake stream adapter.
//!
//! A stream pairs the engine's record layer with the bridge and the
//! transport.  Each operation is a retry loop around the corresponding
//! blocking engine call: would-block is absorbed by exactly one asynchronous
//! transport step (a fill for reads, a flush for writes and flushes) and the
//! engine call is then repeated.  Would-block is never observable by the
//! caller; only terminal engine failures and transport I/O failures
//! propagate.  As everywhere in this crate, the engine's behaviour enters as
//! a trace: the sequence of results its blocking calls produced, one trace
//! per logical operation.

use vstd::prelude::*;

use crate::bridge::Bridge;
use crate::errors::{EngineFault, StreamError};
use crate::errors::TransportError;
use crate::handshake::{plan_has_failure, plan_never_fails};
use crate::transport::ScriptedTransport;

verus! {

/// What one blocking engine read call reported.
#[derive(Debug)]
pub enum ReadEvent {
    /// The engine produced these plaintext bytes.
    Data(Vec<u8>),
    /// The engine needs more transport bytes before it can make progress.
    WouldBlock,
    /// A terminal engine failure.
    Fault(EngineFault),
}

/// What one blocking engine write call reported.
#[derive(Clone, Copy, Debug)]
pub enum WriteEvent {
    /// The engine accepted this many bytes from the front of the caller's
    /// buffer (pushing the corresponding record bytes into the bridge).
    Accepted(usize),
    /// The engine could not accept bytes before more transport progress.
    WouldBlock,
    /// A terminal engine failure.
    Fault(EngineFault),
}

/// What one blocking engine flush call reported.
#[derive(Clone, Copy, Debug)]
pub enum FlushEvent {
    /// The engine considers itself flushed.
    Done,
    /// The engine needs transport progress before it can finish flushing.
    WouldBlock,
    /// A terminal engine failure.
    Fault(EngineFault),
}

/// What a read operation produced.
#[derive(Debug)]
pub enum ReadOutcome {
    /// Decrypted bytes, exactly as the engine produced them.
    Data(Vec<u8>),
    /// The trace ended while the engine still wanted I/O: the operation is
    /// suspended at an await point (or was cancelled there).
    Pending,
    /// A terminal failure.
    Failed(StreamError),
}

/// What a write operation produced.
#[derive(Clone, Copy, Debug, PartialEq, Eq, Structural)]
pub enum WriteOutcome {
    /// This many bytes from the front of the caller's buffer were accepted.
    Wrote(usize),
    /// The trace ended while the engine still wanted I/O.
    Pending,
    /// A terminal failure.
    Failed(StreamError),
}

/// What a flush operation produced.
#[derive(Clone, Copy, Debug, PartialEq, Eq, Structural)]
pub enum FlushOutcome {
    /// Everything the engine and the bridge held has been pushed toward the
    /// transport.
    Flushed,
    /// The trace ended while the engine still wanted I/O.
    Pending,
    /// A terminal failure.
    Failed(StreamError),
}

/// What a shutdown operation produced.
#[derive(Clone, Copy, Debug, PartialEq, Eq, Structural)]
pub enum ShutdownOutcome {
    /// The flush went through and the transport-level shutdown succeeded.
    Shutdown,
    /// The trace ended while the engine still wanted I/O; the transport
    /// shutdown was not yet attempted.
    Pending,
    /// A terminal failure.
    Failed(StreamError),
}

/// Whether every read event of `t` up to (excluding) `n` is would-block.
pub open spec fn read_waits(t: Seq<ReadEvent>, n: int) -> bool {
    forall|i: int| 0 <= i < n ==> t[i] is WouldBlock
}

/// `j` is the position of the first read event of `t` that is not
/// would-block.
pub open spec fn read_terminal_at(t: Seq<ReadEvent>, j: int) -> bool {
    &&& 0 <= j < t.len()
    &&& !(t[j] is WouldBlock)
    &&& read_waits(t, j)
}

/// Whether every write event of `t` up to (excluding) `n` is would-block.
pub open spec fn write_waits(t: Seq<WriteEvent>, n: int) -> bool {
    forall|i: int| 0 <= i < n ==> t[i] is WouldBlock
}

/// `j` is the position of the first write event of `t` that is not
/// would-block.
pub open spec fn write_terminal_at(t: Seq<WriteEvent>, j: int) -> bool {
    &&& 0 <= j < t.len()
    &&& !(t[j] is WouldBlock)
    &&& write_waits(t, j)
}

/// Whether every flush event of `t` up to (excluding) `n` is would-block.
pub open spec fn flush_waits(t: Seq<FlushEvent>, n: int) -> bool {
    forall|i: int| 0 <= i < n ==> t[i] is WouldBlock
}

/// `j` is the position of the first flush event of `t` that is not
/// would-block.
pub open spec fn flush_terminal_at(t: Seq<FlushEvent>, j: int) -> bool {
    &&& 0 <= j < t.len()
    &&& !(t[j] is WouldBlock)
    &&& flush_waits(t, j)
}

/// What a read trace decides, independently of any stream state: the first
/// non-would-block event settles the outcome; a trace of nothing but
/// would-block settles nothing and the operation keeps waiting.
pub enum ReadDecision {
    /// The engine eventually produced these bytes.
    Delivers(Seq<u8>),
    /// No data became available: the operation waits at an await point.
    Waits,
    /// The engine eventually failed.
    Fails(EngineFault),
}

/// The decision a read trace settles on.
pub open spec fn read_decision(t: Seq<ReadEvent>) -> ReadDecision
    decreases t.len(),
{
    if t.len() == 0 {
        ReadDecision::Waits
    } else {
        match t[0] {
            ReadEvent::Data(d) => ReadDecision::Delivers(d@),
            ReadEvent::Fault(f) => ReadDecision::Fails(f),
            ReadEvent::WouldBlock => read_decision(t.skip(1)),
        }
    }
}

/// A trace of nothing but would-block decides to wait: no data, no error,
/// no empty success.
pub proof fn lemma_read_decision_waits(t: Seq<ReadEvent>)
    requires
        read_waits(t, t.len() as int),
    ensures
        read_decision(t) is Waits,
    decreases t.len(),
{
    if t.len() > 0 {
        assert(t[0] is WouldBlock);
        assert(read_waits(t.skip(1), t.skip(1).len() as int));
        lemma_read_decision_waits(t.skip(1));
    }
}

/// The first non-would-block event settles the decision of a read trace.
pub proof fn lemma_read_decision_terminal(t: Seq<ReadEvent>, j: int)
    requires
        read_terminal_at(t, j),
    ensures
        t[j] matches ReadEvent::Data(d) ==> read_decision(t) == ReadDecision::Delivers(d@),
        t[j] matches ReadEvent::Fault(f) ==> read_decision(t) == ReadDecision::Fails(f),
    decreases j,
{
    if j > 0 {
        assert(read_terminal_at(t.skip(1), j - 1));
        lemma_read_decision_terminal(t.skip(1), j - 1);
        assert(t.skip(1)[j - 1] == t[j]);
    }
}

/// Whether a read outcome realises a read decision.
pub open spec fn read_outcome_agrees(r: ReadOutcome, d: ReadDecision) -> bool {
    match d {
        ReadDecision::Delivers(bytes) => r matches ReadOutcome::Data(v) && v@ == bytes,
        ReadDecision::Waits => r is Pending,
        ReadDecision::Fails(f) => r == ReadOutcome::Failed(StreamError::EngineFailure(f)),
    }
}

/// Cancelling an in-flight read before its pending transport step resolves
/// leaves the stream usable.  A read whose trace ends in nothing but
/// would-block decides to wait and settles nothing; a later read whose trace
/// does find data delivers exactly that data — the earlier cancelled attempt
/// has no bearing on it, because a read trace alone settles the decision.
pub proof fn lemma_cancelled_read_then_retry(t1: Seq<ReadEvent>, t2: Seq<ReadEvent>, j: int)
    requires
        read_waits(t1, t1.len() as int),
        read_terminal_at(t2, j),
    ensures
        read_decision(t1) is Waits,
        t2[j] matches ReadEvent::Data(d) ==> read_decision(t2) == ReadDecision::Delivers(d@),
{
    lemma_read_decision_waits(t1);
    lemma_read_decision_terminal(t2, j);
}

/// Copies the first `k` bytes of `src`.
fn copy_prefix(src: &Vec<u8>, k: usize) -> (r: Vec<u8>)
    requires
        k <= src@.len(),
    ensures
        r@ == src@.subrange(0, k as int),
{
    let mut r: Vec<u8> = Vec::new();
    let mut i: usize = 0;
    while i < k
        invariant
            0 <= i <= k,
            k <= src@.len(),
            r@ == src@.subrange(0, i as int),
        decreases k - i,
    {
        r.push(src[i]);
        proof {
            assert(r@ =~= src@.subrange(0, i + 1));
        }
        i = i + 1;
    }
    r
}

/// A stream over a completed handshake: the engine's record layer on one
/// side, the bridge and the transport on the other.  Bytes read are
/// decrypted out of the transport; bytes written are encrypted into it.
pub struct SslStream {
    /// The buffering adapter between the engine and the transport.
    pub bridge: Bridge,
    /// The transport under the bridge.
    pub transport: ScriptedTransport,
}

impl SslStream {
    /// Assembles a stream from an already-connected pair, for handshakes
    /// driven elsewhere.
    pub fn from_parts(bridge: Bridge, transport: ScriptedTransport) -> (s: SslStream)
        ensures
            s.bridge == bridge,
            s.transport == transport,
    {
        SslStream { bridge, transport }
    }

    /// Returns a shared reference to the underlying transport.
    pub fn get_ref(&self) -> (t: &ScriptedTransport)
        ensures
            t == &self.transport,
    {
        &self.transport
    }

    /// Returns a mutable reference to the underlying transport.
    pub fn get_mut(&mut self) -> (t: &mut ScriptedTransport)
        ensures
            *t == old(self).transport,
            *final(self) == (SslStream { transport: *final(t), ..*old(self) }),
    {
        &mut self.transport
    }

    /// Reads from the stream: the engine read call is repeated, and every
    /// would-block is absorbed by exactly one transport fill — a fresh
    /// engine call follows each fill, never a partial silent return.  While
    /// no data is available the operation only ever waits; it never
    /// manufactures an error or an empty success.
    pub fn read(&mut self, trace: &Vec<ReadEvent>) -> (r: ReadOutcome)
        requires
            old(self).transport.fills + trace@.len() <= usize::MAX,
            old(self).bridge.read_buffer().len() + old(self).transport.peer_bytes@.len()
                <= usize::MAX,
        ensures
            final(self).transport.flushes == old(self).transport.flushes,
            final(self).transport.shutdowns == old(self).transport.shutdowns,
            final(self).transport.delivered == old(self).transport.delivered,
            final(self).transport.fill_plan == old(self).transport.fill_plan,
            final(self).transport.flush_plan == old(self).transport.flush_plan,
            final(self).transport.shutdown_response == old(self).transport.shutdown_response,
            final(self).bridge.write_buffer() == old(self).bridge.write_buffer(),
            final(self).transport.fills <= old(self).transport.fills + trace@.len(),
            // An I/O failure is never invented or altered: it is one the
            // transport actually raised.
            forall|e: TransportError|
                r == ReadOutcome::Failed(StreamError::Io(e)) ==> #[trigger] plan_has_failure(
                    old(self).transport.fill_plan@,
                    e,
                ),
            // With no failing fill in the plan, the outcome is exactly what
            // the trace decides, and each would-block costs one fill.
            plan_never_fails(old(self).transport.fill_plan@) ==> read_outcome_agrees(
                r,
                read_decision(trace@),
            ),
            plan_never_fails(old(self).transport.fill_plan@) && read_waits(
                trace@,
                trace@.len() as int,
            ) ==> final(self).transport.fills == old(self).transport.fills + trace@.len(),
            forall|j: int|
                plan_never_fails(old(self).transport.fill_plan@) && #[trigger] read_terminal_at(
                    trace@,
                    j,
                ) ==> final(self).transport.fills == old(self).transport.fills + j,
    {
        let ghost base_fills = self.transport.fills;
        proof {
            assert(trace@.skip(0) =~= trace@);
        }
        let mut i: usize = 0;
        while i < trace.len()
            invariant
                0 <= i <= trace@.len(),
                read_waits(trace@, i as int),
                self.transport.fills == base_fills + i,
                base_fills == old(self).transport.fills,
                self.transport.fills + (trace@.len() - i) <= usize::MAX,
                self.transport.flushes == old(self).transport.flushes,
                self.transport.shutdowns == old(self).transport.shutdowns,
                self.transport.delivered == old(self).transport.delivered,
                self.transport.fill_plan == old(self).transport.fill_plan,
                self.transport.flush_plan == old(self).transport.flush_plan,
                self.transport.shutdown_response == old(self).transport.shutdown_response,
                self.bridge.write_buffer() == old(self).bridge.write_buffer(),
                self.bridge.read_buffer().len() + self.transport.peer_bytes@.len() <= usize::MAX,
                read_decision(trace@.skip(i as int)) == read_decision(trace@),
            decreases trace@.len() - i,
        {
            let ghost pre = trace@.skip(i as int);
            proof {
                assert(pre[0] == trace@[i as int]);
            }
            match &trace[i] {
                ReadEvent::Data(d) => {
                    proof {
                        assert(read_terminal_at(trace@, i as int));
                        lemma_read_terminal_unique_all(trace@, i as int);
                    }
                    let out = copy_prefix(d, d.len());
                    proof {
                        assert(out@ =~= d@);
                    }
                    return ReadOutcome::Data(out);
                },
                ReadEvent::Fault(f) => {
                    proof {
                        assert(read_terminal_at(trace@, i as int));
                        lemma_read_terminal_unique_all(trace@, i as int);
                    }
                    return ReadOutcome::Failed(StreamError::EngineFailure(*f));
                },
                ReadEvent::WouldBlock => {
                    let ghost pre_fills = self.transport.fills;
                    match self.transport.fill(&mut self.bridge) {
                        Ok(_) => {},
                        Err(e) => {
                            proof {
                                assert(old(self).transport.fill_plan@[pre_fills as int]
                                    == crate::transport::StepResponse::Fail(e));
                                assert(plan_has_failure(old(self).transport.fill_plan@, e));
                            }
                            return ReadOutcome::Failed(StreamError::Io(e));
                        },
                    }
                },
            }
            proof {
                assert(trace@.skip(i as int).skip(1) =~= trace@.skip(i + 1));
            }
            i = i + 1;
        }
        proof {
            lemma_read_decision_waits(trace@);
            assert forall|j: int| #[trigger] read_terminal_at(trace@, j) implies false by {
                assert(trace@[j] is WouldBlock);
            }
        }
        ReadOutcome::Pending
    }
    /// Writes to the stream: the engine write call is repeated, and every
    /// would-block is absorbed by exactly one adapter-level flush (which
    /// flushes the bridge) before the retry.  When the engine accepts, the
    /// accepted prefix of the caller's bytes has entered the bridge, in
    /// order, exactly once: nothing is duplicated or reordered across the
    /// retries, so the transport eventually observes precisely the accepted
    /// bytes.
    pub fn write(&mut self, data: &Vec<u8>, trace: &Vec<WriteEvent>) -> (r: WriteOutcome)
        requires
            old(self).transport.flushes + trace@.len() <= usize::MAX,
            old(self).transport.delivered@.len() + old(self).bridge.write_buffer().len()
                + data@.len() <= usize::MAX,
        ensures
            final(self).transport.fills == old(self).transport.fills,
            final(self).transport.shutdowns == old(self).transport.shutdowns,
            final(self).transport.peer_bytes == old(self).transport.peer_bytes,
            final(self).transport.fill_plan == old(self).transport.fill_plan,
            final(self).transport.flush_plan == old(self).transport.flush_plan,
            final(self).transport.shutdown_response == old(self).transport.shutdown_response,
            final(self).bridge.read_buffer() == old(self).bridge.read_buffer(),
            final(self).transport.flushes <= old(self).transport.flushes + trace@.len(),
            // An I/O failure is never invented or altered: it is one the
            // transport actually raised.
            forall|e: TransportError|
                r == WriteOutcome::Failed(StreamError::Io(e)) ==> #[trigger] plan_has_failure(
                    old(self).transport.flush_plan@,
                    e,
                ),
            // The engine accepted k bytes after j would-blocks: j flush
            // steps were performed, and exactly the accepted prefix has been
            // handed toward the transport — no byte twice, none out of
            // order.
            forall|j: int|
                plan_never_fails(old(self).transport.flush_plan@) && #[trigger] write_terminal_at(
                    trace@,
                    j,
                ) ==> final(self).transport.flushes == old(self).transport.flushes + j && (match trace@[j] {
                    WriteEvent::Accepted(n) => {
                        let k = vstd::math::min(n as int, data@.len() as int);
                        r == WriteOutcome::Wrote(k as usize) && final(self).transport.delivered@
                            + final(self).bridge.write_buffer() == old(self).transport.delivered@
                            + old(self).bridge.write_buffer() + data@.subrange(0, k)
                    },
                    WriteEvent::Fault(f) => r == WriteOutcome::Failed(StreamError::EngineFailure(f))
                        && final(self).transport.delivered@ + final(self).bridge.write_buffer()
                        == old(self).transport.delivered@ + old(self).bridge.write_buffer(),
                    WriteEvent::WouldBlock => false,
                }),
            // The trace ran out while the engine still wanted I/O: nothing
            // was accepted and nothing invented.
            plan_never_fails(old(self).transport.flush_plan@) && write_waits(
                trace@,
                trace@.len() as int,
            ) ==> (r == WriteOutcome::Pending && final(self).transport.flushes == old(self).transport.flushes + trace@.len() && final(self).transport.delivered@ + final(self).bridge.write_buffer() == old(self).transport.delivered@ + old(self).bridge.write_buffer()),
    {
        let ghost base_flushes = self.transport.flushes;
        let ghost base_d = self.transport.delivered@;
        let ghost base_wb = self.bridge.write_buffer();
        let mut i: usize = 0;
        while i < trace.len()
            invariant
                0 <= i <= trace@.len(),
                write_waits(trace@, i as int),
                self.transport.flushes == base_flushes + i,
                base_flushes == old(self).transport.flushes,
                base_d == old(self).transport.delivered@,
                base_wb == old(self).bridge.write_buffer(),
                self.transport.flushes + (trace@.len() - i) <= usize::MAX,
                self.transport.fills == old(self).transport.fills,
                self.transport.shutdowns == old(self).transport.shutdowns,
                self.transport.peer_bytes == old(self).transport.peer_bytes,
                self.transport.fill_plan == old(self).transport.fill_plan,
                self.transport.flush_plan == old(self).transport.flush_plan,
                self.transport.shutdown_response == old(self).transport.shutdown_response,
                self.bridge.read_buffer() == old(self).bridge.read_buffer(),
                self.transport.delivered@ + self.bridge.write_buffer() == base_d + base_wb,
                base_d.len() + base_wb.len() + data@.len() <= usize::MAX,
            decreases trace@.len() - i,
        {
            match &trace[i] {
                WriteEvent::Accepted(n) => {
                    proof {
                        assert(write_terminal_at(trace@, i as int));
                        lemma_write_terminal_unique_all(trace@, i as int);
                        assert((self.transport.delivered@ + self.bridge.write_buffer()).len()
                            == self.transport.delivered@.len() + self.bridge.write_buffer().len());
                    }
                    let k = if *n < data.len() {
                        *n
                    } else {
                        data.len()
                    };
                    let prefix = copy_prefix(data, k);
                    self.bridge.write(prefix.as_slice());
                    proof {
                        assert(self.transport.delivered@ + self.bridge.write_buffer() =~= base_d
                            + base_wb + data@.subrange(0, k as int));
                    }
                    return WriteOutcome::Wrote(k);
                },
                WriteEvent::Fault(f) => {
                    proof {
                        assert(write_terminal_at(trace@, i as int));
                        lemma_write_terminal_unique_all(trace@, i as int);
                    }
                    return WriteOutcome::Failed(StreamError::EngineFailure(*f));
                },
                WriteEvent::WouldBlock => {
                    let ghost d_pre = self.transport.delivered@;
                    let ghost wb_pre = self.bridge.write_buffer();
                    let ghost pre_flushes = self.transport.flushes;
                    match self.transport.flush(&mut self.bridge) {
                        Ok(_) => {
                            proof {
                                assert(self.transport.delivered@ + self.bridge.write_buffer()
                                    =~= d_pre + wb_pre);
                            }
                        },
                        Err(e) => {
                            proof {
                                assert(old(self).transport.flush_plan@[pre_flushes as int]
                                    == crate::transport::StepResponse::Fail(e));
                                assert(plan_has_failure(old(self).transport.flush_plan@, e));
                            }
                            return WriteOutcome::Failed(StreamError::Io(e));
                        },
                    }
                },
            }
            i = i + 1;
        }
        proof {
            assert forall|j: int| #[trigger] write_terminal_at(trace@, j) implies false by {
                assert(trace@[j] is WouldBlock);
            }
        }
        WriteOutcome::Pending
    }

    /// Flushes the stream: the engine flush call is repeated, each
    /// would-block absorbed by one bridge flush; once the engine reports
    /// itself flushed, one more unconditional bridge flush runs, because the
    /// engine may consider itself logically flushed while bytes still sit in
    /// the bridge's write buffer.
    pub fn flush(&mut self, trace: &Vec<FlushEvent>) -> (r: FlushOutcome)
        requires
            old(self).transport.flushes + trace@.len() + 1 <= usize::MAX,
            old(self).transport.delivered@.len() + old(self).bridge.write_buffer().len()
                <= usize::MAX,
        ensures
            final(self).transport.fills == old(self).transport.fills,
            final(self).transport.shutdowns == old(self).transport.shutdowns,
            final(self).transport.peer_bytes == old(self).transport.peer_bytes,
            final(self).transport.fill_plan == old(self).transport.fill_plan,
            final(self).transport.flush_plan == old(self).transport.flush_plan,
            final(self).transport.shutdown_response == old(self).transport.shutdown_response,
            final(self).bridge.read_buffer() == old(self).bridge.read_buffer(),
            final(self).transport.flushes <= old(self).transport.flushes + trace@.len() + 1,
            final(self).transport.delivered@ + final(self).bridge.write_buffer() == old(self).transport.delivered@ + old(self).bridge.write_buffer(),
            // An I/O failure is never invented or altered: it is one the
            // transport actually raised.
            forall|e: TransportError|
                r == FlushOutcome::Failed(StreamError::Io(e)) ==> #[trigger] plan_has_failure(
                    old(self).transport.flush_plan@,
                    e,
                ),
            // The engine reported done after j would-blocks: j bridge
            // flushes, then the one unconditional trailing flush.
            forall|j: int|
                plan_never_fails(old(self).transport.flush_plan@) && #[trigger] flush_terminal_at(
                    trace@,
                    j,
                ) ==> (match trace@[j] {
                    FlushEvent::Done => r == FlushOutcome::Flushed && final(self).transport.flushes
                        == old(self).transport.flushes + j + 1,
                    FlushEvent::Fault(f) => r == FlushOutcome::Failed(StreamError::EngineFailure(f))
                        && final(self).transport.flushes == old(self).transport.flushes + j,
                    FlushEvent::WouldBlock => false,
                }),
            // On a transport without scripted responses, a completed flush
            // leaves nothing behind: every buffered byte has been observed
            // by the transport, in order.
            forall|j: int|
                #[trigger] flush_terminal_at(trace@, j) && trace@[j] is Done && old(self).transport.flush_plan@.len() == 0 ==> (final(self).bridge.write_buffer().len()
                    == 0 && final(self).transport.delivered@ == old(self).transport.delivered@
                    + old(self).bridge.write_buffer()),
            plan_never_fails(old(self).transport.flush_plan@) && flush_waits(
                trace@,
                trace@.len() as int,
            ) ==> (r == FlushOutcome::Pending && final(self).transport.flushes == old(self).transport.flushes + trace@.len()),
    {
        let ghost base_d = self.transport.delivered@;
        let ghost base_wb = self.bridge.write_buffer();
        let mut i: usize = 0;
        while i < trace.len()
            invariant
                0 <= i <= trace@.len(),
                flush_waits(trace@, i as int),
                self.transport.flushes == old(self).transport.flushes + i,
                base_d == old(self).transport.delivered@,
                base_wb == old(self).bridge.write_buffer(),
                self.transport.flushes + (trace@.len() - i) + 1 <= usize::MAX,
                self.transport.fills == old(self).transport.fills,
                self.transport.shutdowns == old(self).transport.shutdowns,
                self.transport.peer_bytes == old(self).transport.peer_bytes,
                self.transport.fill_plan == old(self).transport.fill_plan,
                self.transport.flush_plan == old(self).transport.flush_plan,
                self.transport.shutdown_response == old(self).transport.shutdown_response,
                self.bridge.read_buffer() == old(self).bridge.read_buffer(),
                self.transport.delivered@ + self.bridge.write_buffer() == base_d + base_wb,
                base_d.len() + base_wb.len() <= usize::MAX,
            decreases trace@.len() - i,
        {
            match &trace[i] {
                FlushEvent::Done => {
                    proof {
                        assert(flush_terminal_at(trace@, i as int));
                        lemma_flush_terminal_unique_all(trace@, i as int);
                        assert((self.transport.delivered@ + self.bridge.write_buffer()).len()
                            == self.transport.delivered@.len() + self.bridge.write_buffer().len());
                    }
                    let ghost d_pre = self.transport.delivered@;
                    let ghost wb_pre = self.bridge.write_buffer();
                    let ghost pre_flushes = self.transport.flushes;
                    proof {
                        assert((d_pre + wb_pre).len() == d_pre.len() + wb_pre.len());
                        assert((base_d + base_wb).len() == base_d.len() + base_wb.len());
                        assert(wb_pre.len() <= usize::MAX);
                    }
                    // The engine is logically flushed; push what still sits
                    // in the bridge toward the transport, unconditionally.
                    match self.transport.flush(&mut self.bridge) {
                        Ok(_) => {
                            proof {
                                assert(self.transport.delivered@ + self.bridge.write_buffer()
                                    =~= d_pre + wb_pre);
                                if old(self).transport.flush_plan@.len() == 0 {
                                    assert(wb_pre.subrange(0, wb_pre.len() as int) =~= wb_pre);
                                    assert(self.transport.delivered@ =~= d_pre + wb_pre);
                                }
                            }
                            return FlushOutcome::Flushed;
                        },
                        Err(e) => {
                            proof {
                                assert(old(self).transport.flush_plan@[pre_flushes as int]
                                    == crate::transport::StepResponse::Fail(e));
                                assert(plan_has_failure(old(self).transport.flush_plan@, e));
                            }
                            return FlushOutcome::Failed(StreamError::Io(e));
                        },
                    }
                },
                FlushEvent::Fault(f) => {
                    proof {
                        assert(flush_terminal_at(trace@, i as int));
                        lemma_flush_terminal_unique_all(trace@, i as int);
                    }
                    return FlushOutcome::Failed(StreamError::EngineFailure(*f));
                },
                FlushEvent::WouldBlock => {
                    let ghost d_pre = self.transport.delivered@;
                    let ghost wb_pre = self.bridge.write_buffer();
                    let ghost pre_flushes = self.transport.flushes;
                    proof {
                        assert((d_pre + wb_pre).len() == d_pre.len() + wb_pre.len());
                        assert((base_d + base_wb).len() == base_d.len() + base_wb.len());
                    }
                    match self.transport.flush(&mut self.bridge) {
                        Ok(_) => {
                            proof {
                                assert(self.transport.delivered@ + self.bridge.write_buffer()
                                    =~= d_pre + wb_pre);
                            }
                        },
                        Err(e) => {
                            proof {
                                assert(old(self).transport.flush_plan@[pre_flushes as int]
                                    == crate::transport::StepResponse::Fail(e));
                                assert(plan_has_failure(old(self).transport.flush_plan@, e));
                            }
                            return FlushOutcome::Failed(StreamError::Io(e));
                        },
                    }
                },
            }
            i = i + 1;
        }
        proof {
            assert forall|j: int| #[trigger] flush_terminal_at(trace@, j) implies false by {
                assert(trace@[j] is WouldBlock);
            }
        }
        FlushOutcome::Pending
    }

    /// Shuts the stream down: a flush, then one transport-level shutdown.
    /// The transport shutdown is attempted exactly once even when the flush
    /// failed, and a flush failure is propagated unmasked — whatever the
    /// shutdown itself reported.  This is distinct from an engine-level
    /// close-notify, which remains the caller's business through the engine
    /// handle.
    pub fn shutdown(&mut self, flush_trace: &Vec<FlushEvent>) -> (r: ShutdownOutcome)
        requires
            old(self).transport.flushes + flush_trace@.len() + 1 <= usize::MAX,
            old(self).transport.shutdowns < usize::MAX,
            old(self).transport.delivered@.len() + old(self).bridge.write_buffer().len()
                <= usize::MAX,
        ensures
            final(self).transport.fills == old(self).transport.fills,
            final(self).transport.fill_plan == old(self).transport.fill_plan,
            final(self).transport.flush_plan == old(self).transport.flush_plan,
            final(self).transport.shutdown_response == old(self).transport.shutdown_response,
            final(self).bridge.read_buffer() == old(self).bridge.read_buffer(),
            // An I/O failure is never invented or altered: it came from a
            // flush step or from the transport's own shutdown.
            forall|e: TransportError|
                r == ShutdownOutcome::Failed(StreamError::Io(e)) ==> (#[trigger] plan_has_failure(
                    old(self).transport.flush_plan@,
                    e,
                ) || old(self).transport.shutdown_response == Some(e)),
            // The flush completed: exactly one transport shutdown, whose
            // result decides the outcome.
            forall|j: int|
                plan_never_fails(old(self).transport.flush_plan@) && #[trigger] flush_terminal_at(
                    flush_trace@,
                    j,
                ) && flush_trace@[j] is Done ==> (final(self).transport.shutdowns == old(self).transport.shutdowns + 1 && r == (match old(self).transport.shutdown_response {
                    None => ShutdownOutcome::Shutdown,
                    Some(e) => ShutdownOutcome::Failed(StreamError::Io(e)),
                })),
            // The flush failed in the engine: the transport shutdown is
            // still attempted exactly once, and the original flush error is
            // propagated unmasked.
            forall|j: int|
                plan_never_fails(old(self).transport.flush_plan@) && #[trigger] flush_terminal_at(
                    flush_trace@,
                    j,
                ) ==> (match flush_trace@[j] {
                    FlushEvent::Fault(f) => final(self).transport.shutdowns == old(self).transport.shutdowns + 1 && r == ShutdownOutcome::Failed(
                        StreamError::EngineFailure(f),
                    ),
                    _ => true,
                }),
            // The flush never completed: no transport shutdown happened yet.
            plan_never_fails(old(self).transport.flush_plan@) && flush_waits(
                flush_trace@,
                flush_trace@.len() as int,
            ) ==> (r == ShutdownOutcome::Pending && final(self).transport.shutdowns == old(self).transport.shutdowns),
    {
        let flushed = self.flush(flush_trace);
        match flushed {
            FlushOutcome::Pending => ShutdownOutcome::Pending,
            FlushOutcome::Flushed => {
                match self.transport.shutdown() {
                    Ok(_) => ShutdownOutcome::Shutdown,
                    Err(e) => ShutdownOutcome::Failed(StreamError::Io(e)),
                }
            },
            FlushOutcome::Failed(e) => {
                // Best-effort transport shutdown; the flush error wins.
                let _ = self.transport.shutdown();
                ShutdownOutcome::Failed(e)
            },
        }
    }
}

/// Writing then flushing delivers exactly the written bytes.  A write that
/// got `data` accepted leaves the transport's observed bytes plus the
/// bridge's pending bytes equal to what they were plus `data`; a flush that
/// completes hands everything pending to the transport and leaves nothing
/// behind.  Together: after writing `data` and flushing, the transport has
/// observed exactly `data` beyond what it held before — every byte once, in
/// the original order, however many would-block retries occurred in between.
pub proof fn lemma_write_then_flush_delivers(
    delivered_before: Seq<u8>,
    pending_before: Seq<u8>,
    delivered_mid: Seq<u8>,
    pending_mid: Seq<u8>,
    delivered_after: Seq<u8>,
    pending_after: Seq<u8>,
    data: Seq<u8>,
)
    requires
        delivered_mid + pending_mid == delivered_before + pending_before + data,
        delivered_after == delivered_mid + pending_mid,
        pending_after.len() == 0,
    ensures
        delivered_after == delivered_before + pending_before + data,
{
}

/// Every write trace has at most one first non-would-block event; knowing
/// one pins them all.
proof fn lemma_write_terminal_unique_all(t: Seq<WriteEvent>, i: int)
    requires
        write_terminal_at(t, i),
    ensures
        forall|j: int| #[trigger] write_terminal_at(t, j) ==> j == i,
{
    assert forall|j: int| #[trigger] write_terminal_at(t, j) implies j == i by {
        if i < j {
            assert(t[i] is WouldBlock);
        } else if j < i {
            assert(t[j] is WouldBlock);
        }
    }
}

/// Every flush trace has at most one first non-would-block event; knowing
/// one pins them all.
proof fn lemma_flush_terminal_unique_all(t: Seq<FlushEvent>, i: int)
    requires
        flush_terminal_at(t, i),
    ensures
        forall|j: int| #[trigger] flush_terminal_at(t, j) ==> j == i,
{
    assert forall|j: int| #[trigger] flush_terminal_at(t, j) implies j == i by {
        if i < j {
            assert(t[i] is WouldBlock);
        } else if j < i {
            assert(t[j] is WouldBlock);
        }
    }
}

/// Every read trace has at most one first non-would-block event; knowing one
/// pins them all.
proof fn lemma_read_terminal_unique_all(t: Seq<ReadEvent>, i: int)
    requires
        read_terminal_at(t, i),
    ensures
        forall|j: int| #[trigger] read_terminal_at(t, j) ==> j == i,
        t[i] matches ReadEvent::Data(d) ==> read_decision(t) == ReadDecision::Delivers(d@),
        t[i] matches ReadEvent::Fault(f) ==> read_decision(t) == ReadDecision::Fails(f),
{
    assert forall|j: int| #[trigger] read_terminal_at(t, j) implies j == i by {
        if i < j {
            assert(t[i] is WouldBlock);
        } else if j < i {
            assert(t[j] is WouldBlock);
        }
    }
    lemma_read_decision_terminal(t, i);
}

} // verus!
