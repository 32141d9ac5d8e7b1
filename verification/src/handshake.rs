//! The handshake driver.
//!
//! The engine's blocking handshake call is driven in a loop.  Each call
//! returns one of four things: done, a terminal failure, a setup failure, or
//! would-block.  Would-block means "perform exactly one asynchronous
//! transport step, then retry": a flush when the bridge holds undelivered
//! bytes, otherwise a fill.  If a flush moved nothing while the engine still
//! reports would-block, the driver switches to a fill on the next iteration
//! rather than busy-looping on flush.  After the engine reports done, the
//! driver performs exactly one trailing flush, so that trailing handshake
//! bytes are guaranteed to reach the transport, and only then reports the
//! stream connected.  Terminal failures are never retried.

use vstd::prelude::*;

use crate::bridge::Bridge;
use crate::errors::{EngineFault, HandshakeError, TransportError};
use crate::stream::SslStream;
use crate::transport::{ScriptedTransport, StepResponse};

verus! {

/// What one blocking handshake call reported.
#[derive(Clone, Copy, Debug)]
pub enum HandshakeEvent {
    /// The handshake is complete.
    Done,
    /// The engine needs more underlying I/O before it can make progress.
    WouldBlock,
    /// A terminal engine failure (certificate or protocol error).
    Failure(EngineFault),
    /// A misconfiguration detected before any network I/O occurred.
    SetupFailure(EngineFault),
}

/// One blocking handshake call, as the driver sees it: what the call
/// reported, and the bytes the engine pushed into the bridge while it ran.
#[derive(Debug)]
pub struct HandshakeStep {
    /// What the call reported.
    pub event: HandshakeEvent,
    /// The bytes the engine wrote through the synchronous facade during the
    /// call.
    pub wrote: Vec<u8>,
}

/// What driving a handshake trace produced.
#[derive(Clone, Copy, Debug, PartialEq, Eq, Structural)]
pub enum DriveOutcome {
    /// The engine reported done and the trailing flush went through.
    Connected,
    /// The trace ended while the engine still wanted more I/O; the attempt
    /// was suspended (or cancelled) at an await point.
    Pending,
    /// The attempt ended in a terminal error.
    Failed(HandshakeError),
}

/// Whether every step of `t` up to (excluding) `n` reported would-block.
pub open spec fn all_would_block(t: Seq<HandshakeStep>, n: int) -> bool {
    forall|i: int| 0 <= i < n ==> t[i].event is WouldBlock
}

/// `j` is the position of the first event of `t` that is not would-block.
pub open spec fn terminal_at(t: Seq<HandshakeStep>, j: int) -> bool {
    &&& 0 <= j < t.len()
    &&& !(t[j].event is WouldBlock)
    &&& all_would_block(t, j)
}

/// The bytes the engine wrote during the first `n` steps of `t`,
/// concatenated in order.
pub open spec fn wrote_concat(t: Seq<HandshakeStep>, n: int) -> Seq<u8>
    decreases n,
{
    if n <= 0 {
        Seq::empty()
    } else {
        wrote_concat(t, n - 1) + t[n - 1].wrote@
    }
}

/// Concatenating one more step's bytes never shortens the total.
pub proof fn lemma_wrote_concat_monotonic(t: Seq<HandshakeStep>, m: int, n: int)
    requires
        0 <= m <= n,
    ensures
        wrote_concat(t, m).len() <= wrote_concat(t, n).len(),
    decreases n,
{
    if m < n {
        lemma_wrote_concat_monotonic(t, m, n - 1);
    }
}

/// Whether a transport plan contains no injected failure.
pub open spec fn plan_never_fails(p: Seq<StepResponse>) -> bool {
    forall|i: int| 0 <= i < p.len() ==> !(p[i] is Fail)
}

/// Whether a transport plan injects exactly this failure somewhere.
pub open spec fn plan_has_failure(p: Seq<StepResponse>, e: TransportError) -> bool {
    exists|i: int| 0 <= i < p.len() && p[i] == StepResponse::Fail(e)
}

/// A trace has at most one first non-would-block event.
pub proof fn lemma_terminal_unique(t: Seq<HandshakeStep>, i: int, j: int)
    requires
        terminal_at(t, i),
        terminal_at(t, j),
    ensures
        i == j,
{
    if i < j {
        assert(t[i].event is WouldBlock);
    } else if j < i {
        assert(t[j].event is WouldBlock);
    }
}

/// Drives the blocking handshake trace `trace` to completion against the
/// bridge and the transport.
///
/// The central accounting guarantee: for a trace that reports would-block
/// exactly `k` times before done, the driver performs exactly `k` transport
/// steps, followed by exactly one trailing flush, before reporting the
/// stream connected — and on a transport without scripted responses every
/// byte the engine wrote, and nothing else, has then been delivered to the
/// transport in order.
pub fn drive_handshake(
    trace: &Vec<HandshakeStep>,
    bridge: &mut Bridge,
    tr: &mut ScriptedTransport,
) -> (r: DriveOutcome)
    requires
        old(tr).fills + old(tr).flushes + trace@.len() + 1 <= usize::MAX,
        old(tr).delivered@.len() + old(bridge).write_buffer().len() + wrote_concat(
            trace@,
            trace@.len() as int,
        ).len() <= usize::MAX,
        old(bridge).read_buffer().len() + old(tr).peer_bytes@.len() <= usize::MAX,
    ensures
        final(tr).shutdowns == old(tr).shutdowns,
        final(tr).fill_plan == old(tr).fill_plan,
        final(tr).flush_plan == old(tr).flush_plan,
        final(tr).shutdown_response == old(tr).shutdown_response,
        final(tr).steps() <= old(tr).steps() + trace@.len() + 1,
        // An I/O failure is never invented or altered: it is one the
        // transport actually raised.
        forall|e: TransportError|
            r == DriveOutcome::Failed(HandshakeError::Io(e)) ==> (#[trigger] plan_has_failure(
                old(tr).fill_plan@,
                e,
            ) || plan_has_failure(old(tr).flush_plan@, e)),
        // The trace ran out while the engine still wanted I/O: one transport
        // step per would-block, and the attempt stays pending.
        all_would_block(trace@, trace@.len() as int) && plan_never_fails(old(tr).fill_plan@)
            && plan_never_fails(old(tr).flush_plan@) ==> (r == DriveOutcome::Pending && final(tr).steps() == old(tr).steps() + trace@.len()),
        // A terminal engine failure aborts at once: one step per preceding
        // would-block and nothing more.
        forall|j: int|
            trace@[j].event matches HandshakeEvent::Failure(f) ==> ((#[trigger] terminal_at(trace@, j)
                && plan_never_fails(old(tr).fill_plan@) && plan_never_fails(old(tr).flush_plan@))
                ==> (r == DriveOutcome::Failed(HandshakeError::Failure(f)) && final(tr).steps()
                == old(tr).steps() + j)),
        // So does a setup failure.
        forall|j: int|
            trace@[j].event matches HandshakeEvent::SetupFailure(f) ==> ((#[trigger] terminal_at(trace@, j)
                && plan_never_fails(old(tr).fill_plan@) && plan_never_fails(old(tr).flush_plan@))
                ==> (r == DriveOutcome::Failed(HandshakeError::SetupFailure(f)) && final(tr).steps() == old(tr).steps() + j)),
        // Done after exactly j would-blocks: j transport steps, then exactly
        // one trailing flush, then Connected.
        forall|j: int|
            terminal_at(trace@, j) && trace@[j].event is Done && plan_never_fails(
                old(tr).fill_plan@,
            ) && plan_never_fails(old(tr).flush_plan@) ==> (r == DriveOutcome::Connected && final(tr).steps() == old(tr).steps() + j + 1 && final(tr).flushes >= old(tr).flushes + 1),
        // On a transport without scripted responses, connecting leaves the
        // write buffer empty and the transport has observed exactly the
        // bytes the engine wrote, in order.
        forall|j: int|
            terminal_at(trace@, j) && trace@[j].event is Done && old(tr).fill_plan@.len() == 0
                && old(tr).flush_plan@.len() == 0 ==> (final(bridge).write_buffer().len() == 0
                && final(tr).delivered@ == old(tr).delivered@ + old(bridge).write_buffer()
                + wrote_concat(trace@, j + 1)),
{
    let ghost base_steps = tr.steps();
    let ghost base_delivered = tr.delivered@;
    let ghost base_wb = bridge.write_buffer();
    let ghost base_incoming = bridge.read_buffer().len() + tr.peer_bytes@.len();
    let mut i: usize = 0;
    let mut prefer_fill: bool = false;
    while i < trace.len()
        invariant
            0 <= i <= trace@.len(),
            all_would_block(trace@, i as int),
            tr.steps() == base_steps + i,
            tr.fills >= old(tr).fills,
            tr.flushes >= old(tr).flushes,
            tr.fills + tr.flushes + (trace@.len() - i) + 1 <= usize::MAX,
            tr.shutdowns == old(tr).shutdowns,
            tr.fill_plan == old(tr).fill_plan,
            tr.flush_plan == old(tr).flush_plan,
            tr.shutdown_response == old(tr).shutdown_response,
            base_steps == old(tr).steps(),
            base_delivered == old(tr).delivered@,
            base_wb == old(bridge).write_buffer(),
            tr.delivered@ + bridge.write_buffer() == base_delivered + base_wb + wrote_concat(
                trace@,
                i as int,
            ),
            base_delivered.len() + base_wb.len() + wrote_concat(
                trace@,
                trace@.len() as int,
            ).len() <= usize::MAX,
            bridge.read_buffer().len() + tr.peer_bytes@.len() <= base_incoming,
            base_incoming <= usize::MAX,
            trace@.len() <= usize::MAX,
        decreases trace@.len() - i,
    {
        let step = &trace[i];
        let ghost d_entry = tr.delivered@;
        let ghost wb_entry = bridge.write_buffer();
        let ghost w_i = trace@[i as int].wrote@;
        proof {
            lemma_wrote_concat_monotonic(trace@, i + 1, trace@.len() as int);
            assert(wrote_concat(trace@, i + 1) == wrote_concat(trace@, i as int) + w_i);
            assert((d_entry + wb_entry).len() == d_entry.len() + wb_entry.len());
            assert((base_delivered + base_wb + wrote_concat(trace@, i as int)).len()
                == base_delivered.len() + base_wb.len() + wrote_concat(trace@, i as int).len());
            assert(wrote_concat(trace@, i + 1).len() == wrote_concat(trace@, i as int).len()
                + w_i.len());
        }
        bridge.write(step.wrote.as_slice());
        let ghost target = base_delivered + base_wb + wrote_concat(trace@, i + 1);
        proof {
            assert(tr.delivered@ + bridge.write_buffer() =~= (d_entry + wb_entry) + w_i);
            assert((d_entry + wb_entry) + w_i =~= target);
            assert(tr.delivered@ + bridge.write_buffer() == target);
            assert(target.len() <= usize::MAX);
        }
        let ghost d_aw = tr.delivered@;
        let ghost wb_aw = bridge.write_buffer();
        match &step.event {
            HandshakeEvent::Done => {
                // One unconditional trailing flush, so trailing handshake
                // bytes reach the transport before the stream is handed out.
                let ghost pre_flushes = tr.flushes;
                let flushed = tr.flush(bridge);
                proof {
                    assert(terminal_at(trace@, i as int));
                    assert forall|j: int| #[trigger] terminal_at(trace@, j) implies j
                        == i as int by {
                        lemma_terminal_unique(trace@, i as int, j);
                    }
                }
                match flushed {
                    Ok(_) => {
                        proof {
                            if old(tr).flush_plan@.len() == 0 {
                                assert(wb_aw.subrange(0, wb_aw.len() as int) =~= wb_aw);
                                assert(tr.delivered@ =~= target);
                            }
                        }
                        return DriveOutcome::Connected;
                    },
                    Err(e) => {
                        proof {
                            assert(old(tr).flush_plan@[pre_flushes as int]
                                == StepResponse::Fail(e));
                            assert(plan_has_failure(old(tr).flush_plan@, e));
                        }
                        return DriveOutcome::Failed(HandshakeError::Io(e));
                    },
                }
            },
            HandshakeEvent::Failure(f) => {
                proof {
                    assert(terminal_at(trace@, i as int));
                    assert forall|j: int| #[trigger] terminal_at(trace@, j) implies j
                        == i as int by {
                        lemma_terminal_unique(trace@, i as int, j);
                    }
                }
                return DriveOutcome::Failed(HandshakeError::Failure(*f));
            },
            HandshakeEvent::SetupFailure(f) => {
                proof {
                    assert(terminal_at(trace@, i as int));
                    assert forall|j: int| #[trigger] terminal_at(trace@, j) implies j
                        == i as int by {
                        lemma_terminal_unique(trace@, i as int, j);
                    }
                }
                return DriveOutcome::Failed(HandshakeError::SetupFailure(*f));
            },
            HandshakeEvent::WouldBlock => {
                if bridge.has_pending_write() && !prefer_fill {
                    let ghost pre_flushes = tr.flushes;
                    let flushed = tr.flush(bridge);
                    match flushed {
                        Ok(n) => {
                            proof {
                                assert(tr.delivered@ + bridge.write_buffer() =~= d_aw + wb_aw);
                            }
                            // A flush that moved nothing while the engine
                            // still blocks: switch to a fill next time.
                            prefer_fill = n == 0;
                        },
                        Err(e) => {
                            proof {
                                assert(old(tr).flush_plan@[pre_flushes as int]
                                    == StepResponse::Fail(e));
                                assert(plan_has_failure(old(tr).flush_plan@, e));
                            }
                            return DriveOutcome::Failed(HandshakeError::Io(e));
                        },
                    }
                } else {
                    let ghost pre_fills = tr.fills;
                    match tr.fill(bridge) {
                        Ok(_) => {
                            prefer_fill = false;
                        },
                        Err(e) => {
                            proof {
                                assert(old(tr).fill_plan@[pre_fills as int]
                                    == StepResponse::Fail(e));
                                assert(plan_has_failure(old(tr).fill_plan@, e));
                            }
                            return DriveOutcome::Failed(HandshakeError::Io(e));
                        },
                    }
                }
            },
        }
        i = i + 1;
    }
    DriveOutcome::Pending
}

/// The outcome of one handshake attempt: terminal, produced exactly once.
pub enum HandshakeOutcome {
    /// The handshake completed and its trailing flush went through; the
    /// connected stream is ready for reads and writes.
    Connected(SslStream),
    /// The trace ended while the engine still wanted I/O; the attempt was
    /// suspended (or cancelled) at an await point.
    Pending,
    /// The attempt ended in a terminal error; a new stream must be
    /// constructed to retry.
    Failed(HandshakeError),
}

/// What the transport must have room for before a handshake attempt: the
/// step counters and buffers may not overflow while the trace is driven.
pub open spec fn handshake_fits(trace: Seq<HandshakeStep>, t0: ScriptedTransport) -> bool {
    &&& t0.fills + t0.flushes + trace.len() + 1 <= usize::MAX
    &&& t0.delivered@.len() + wrote_concat(trace, trace.len() as int).len() <= usize::MAX
    &&& t0.peer_bytes@.len() <= usize::MAX
}

/// What every way of starting a handshake guarantees, stated over the
/// engine trace and the transport as it was handed in (the bridge starts
/// empty).
pub open spec fn handshake_contract(
    trace: Seq<HandshakeStep>,
    t0: ScriptedTransport,
    r: HandshakeOutcome,
) -> bool {
    &&& (forall|e: TransportError|
        r == HandshakeOutcome::Failed(HandshakeError::Io(e)) ==> (#[trigger] plan_has_failure(
            t0.fill_plan@,
            e,
        ) || plan_has_failure(t0.flush_plan@, e)))
    &&& (all_would_block(trace, trace.len() as int) && plan_never_fails(t0.fill_plan@)
        && plan_never_fails(t0.flush_plan@) ==> r is Pending)
    &&& (forall|j: int|
        trace[j].event matches HandshakeEvent::Failure(f) ==> ((#[trigger] terminal_at(trace, j)
            && plan_never_fails(t0.fill_plan@) && plan_never_fails(t0.flush_plan@)) ==> r
            == HandshakeOutcome::Failed(HandshakeError::Failure(f))))
    &&& (forall|j: int|
        trace[j].event matches HandshakeEvent::SetupFailure(f) ==> ((#[trigger] terminal_at(
            trace,
            j,
        ) && plan_never_fails(t0.fill_plan@) && plan_never_fails(t0.flush_plan@)) ==> r
            == HandshakeOutcome::Failed(HandshakeError::SetupFailure(f))))
    &&& (forall|j: int|
        terminal_at(trace, j) && trace[j].event is Done && plan_never_fails(t0.fill_plan@)
            && plan_never_fails(t0.flush_plan@) ==> (r matches HandshakeOutcome::Connected(s)
            && s.transport.steps() == t0.steps() + j + 1 && s.transport.flushes >= t0.flushes
            + 1))
    &&& (forall|j: int|
        terminal_at(trace, j) && trace[j].event is Done && t0.fill_plan@.len() == 0
            && t0.flush_plan@.len() == 0 ==> (r matches HandshakeOutcome::Connected(s)
            && s.bridge.write_buffer().len() == 0 && s.transport.delivered@ == t0.delivered@
            + wrote_concat(trace, j + 1)))
}

/// Asynchronously performs a client-side handshake over the transport,
/// driving the engine's blocking handshake trace to completion.
pub fn connect(trace: &Vec<HandshakeStep>, transport: ScriptedTransport) -> (r: HandshakeOutcome)
    requires
        handshake_fits(trace@, transport),
    ensures
        handshake_contract(trace@, transport, r),
{
    let mut bridge = Bridge::new();
    let mut tr = transport;
    let out = drive_handshake(trace, &mut bridge, &mut tr);
    match out {
        DriveOutcome::Connected => HandshakeOutcome::Connected(SslStream::from_parts(bridge, tr)),
        DriveOutcome::Pending => HandshakeOutcome::Pending,
        DriveOutcome::Failed(e) => HandshakeOutcome::Failed(e),
    }
}

/// Asynchronously performs a server-side handshake over the transport.  The
/// role lives in the engine; the driving loop is the same.
pub fn accept(trace: &Vec<HandshakeStep>, transport: ScriptedTransport) -> (r: HandshakeOutcome)
    requires
        handshake_fits(trace@, transport),
    ensures
        handshake_contract(trace@, transport, r),
{
    connect(trace, transport)
}

/// A partially constructed stream, for handshakes set up in two phases: the
/// engine is configured first, the handshake driven afterwards.
pub struct SslStreamBuilder {
    /// The engine's handshake trace.
    pub trace: Vec<HandshakeStep>,
    /// The transport the stream will run over.
    pub transport: ScriptedTransport,
}

impl SslStreamBuilder {
    /// Begins creating a stream atop the transport.
    pub fn new(trace: Vec<HandshakeStep>, transport: ScriptedTransport) -> (b: SslStreamBuilder)
        ensures
            b.trace == trace,
            b.transport == transport,
    {
        SslStreamBuilder { trace, transport }
    }

    /// Initiates a client-side handshake.
    pub fn connect(self) -> (r: HandshakeOutcome)
        requires
            handshake_fits(self.trace@, self.transport),
        ensures
            handshake_contract(self.trace@, self.transport, r),
    {
        connect(&self.trace, self.transport)
    }

    /// Initiates a server-side handshake.
    pub fn accept(self) -> (r: HandshakeOutcome)
        requires
            handshake_fits(self.trace@, self.transport),
        ensures
            handshake_contract(self.trace@, self.transport, r),
    {
        accept(&self.trace, self.transport)
    }
}

} // verus!
