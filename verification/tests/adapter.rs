use compio_boring::bridge::Bridge;
use compio_boring::errors::{EngineFault, HandshakeError, StreamError, TransportError};
use compio_boring::handshake::{
    connect, drive_handshake, DriveOutcome, HandshakeEvent, HandshakeOutcome, HandshakeStep,
    SslStreamBuilder,
};
use compio_boring::stream::{
    FlushEvent, FlushOutcome, ReadEvent, ReadOutcome, ShutdownOutcome, SslStream, WriteEvent,
    WriteOutcome,
};
use compio_boring::transport::{ScriptedTransport, StepResponse};

fn wb(wrote: Vec<u8>) -> HandshakeStep {
    HandshakeStep { event: HandshakeEvent::WouldBlock, wrote }
}

fn done(wrote: Vec<u8>) -> HandshakeStep {
    HandshakeStep { event: HandshakeEvent::Done, wrote }
}

#[test]
fn handshake_two_flushes_one_fill_then_trailing_flush() {
    // needs-write, needs-write, needs-read, done
    let trace = vec![wb(vec![1, 2, 3]), wb(vec![4, 5]), wb(vec![]), done(vec![])];
    let transport = ScriptedTransport::new(vec![10, 11]);
    match connect(&trace, transport) {
        HandshakeOutcome::Connected(s) => {
            let t = s.get_ref();
            assert_eq!(t.flushes, 3); // two absorbing flushes plus the trailing one
            assert_eq!(t.fills, 1);
            assert_eq!(t.delivered, vec![1, 2, 3, 4, 5]);
            assert_eq!(t.shutdowns, 0);
        },
        _ => panic!("expected a connected stream"),
    }
}

#[test]
fn handshake_without_would_block_performs_only_trailing_flush() {
    let trace = vec![done(vec![9, 9])];
    let transport = ScriptedTransport::new(Vec::new());
    match connect(&trace, transport) {
        HandshakeOutcome::Connected(s) => {
            assert_eq!(s.get_ref().flushes, 1);
            assert_eq!(s.get_ref().fills, 0);
            assert_eq!(s.get_ref().delivered, vec![9, 9]);
        },
        _ => panic!("expected a connected stream"),
    }
}

#[test]
fn handshake_terminal_failure_aborts_without_retry() {
    let fault = EngineFault { code: 44 };
    let trace = vec![
        wb(vec![7]),
        HandshakeStep { event: HandshakeEvent::Failure(fault), wrote: vec![] },
        done(vec![]),
    ];
    let transport = ScriptedTransport::new(Vec::new());
    match connect(&trace, transport) {
        HandshakeOutcome::Failed(e) => {
            assert_eq!(e, HandshakeError::Failure(fault));
            assert_eq!(e.code(), Some(44));
            assert_eq!(e.as_io_error(), None);
        },
        _ => panic!("expected a terminal failure"),
    }
}

#[test]
fn handshake_setup_failure_is_tagged_distinctly() {
    let fault = EngineFault { code: 3 };
    let trace = vec![HandshakeStep { event: HandshakeEvent::SetupFailure(fault), wrote: vec![] }];
    let transport = ScriptedTransport::new(Vec::new());
    match connect(&trace, transport) {
        HandshakeOutcome::Failed(e) => {
            assert_eq!(e, HandshakeError::SetupFailure(fault));
            assert_eq!(e.code(), None);
            assert_eq!(e.as_io_error(), None);
        },
        _ => panic!("expected a setup failure"),
    }
}

#[test]
fn handshake_transport_error_is_preserved_unmodified() {
    let io = TransportError { code: 1234 };
    let mut transport = ScriptedTransport::new(Vec::new());
    transport.fill_plan = vec![StepResponse::Fail(io)];
    // the engine blocks with nothing to flush, so the driver fills
    let trace = vec![wb(vec![])];
    match connect(&trace, transport) {
        HandshakeOutcome::Failed(e) => {
            assert_eq!(e, HandshakeError::Io(io));
            assert_eq!(e.as_io_error(), Some(io));
        },
        _ => panic!("expected an I/O failure"),
    }
}

#[test]
fn handshake_flush_of_zero_bytes_switches_to_fill() {
    // the transport accepts nothing on the first flush; the driver must not
    // busy-loop on flush but switch to a fill on the next would-block
    let mut transport = ScriptedTransport::new(vec![8]);
    transport.flush_plan = vec![StepResponse::Accept(0)];
    let trace = vec![wb(vec![1]), wb(vec![]), done(vec![])];
    let mut bridge = Bridge::new();
    let mut tr = transport;
    let out = drive_handshake(&trace, &mut bridge, &mut tr);
    assert_eq!(out, DriveOutcome::Connected);
    assert_eq!(tr.flushes, 2); // the zero-byte flush and the trailing one
    assert_eq!(tr.fills, 1); // the switched step
    assert_eq!(tr.delivered, vec![1]);
}

#[test]
fn handshake_cancelled_at_await_point_can_be_resumed() {
    let mut bridge = Bridge::new();
    let mut tr = ScriptedTransport::new(vec![5, 6]);
    // the attempt is cancelled while every call still reported would-block
    let cancelled = vec![wb(vec![1]), wb(vec![])];
    assert_eq!(drive_handshake(&cancelled, &mut bridge, &mut tr), DriveOutcome::Pending);
    // the buffers are consistent: a fresh attempt completes
    let resumed = vec![wb(vec![2]), done(vec![])];
    assert_eq!(drive_handshake(&resumed, &mut bridge, &mut tr), DriveOutcome::Connected);
    assert_eq!(tr.delivered, vec![1, 2]);
}

#[test]
fn handshake_with_an_empty_trace_stays_pending() {
    let transport = ScriptedTransport::new(Vec::new());
    match connect(&Vec::new(), transport) {
        HandshakeOutcome::Pending => {},
        _ => panic!("nothing happened, so nothing may be reported"),
    }
}

#[test]
fn builder_drives_the_same_handshake() {
    let trace = vec![wb(vec![1]), done(vec![2])];
    let transport = ScriptedTransport::new(Vec::new());
    let builder = SslStreamBuilder::new(trace, transport);
    match builder.connect() {
        HandshakeOutcome::Connected(s) => {
            assert_eq!(s.get_ref().delivered, vec![1, 2]);
        },
        _ => panic!("expected a connected stream"),
    }
}

fn fresh_stream() -> SslStream {
    SslStream::from_parts(Bridge::new(), ScriptedTransport::new(Vec::new()))
}

#[test]
fn read_waits_while_no_data_is_available() {
    let mut s = SslStream::from_parts(Bridge::new(), ScriptedTransport::new(vec![1, 2, 3]));
    // the engine reports would-block three times and the trace ends: the
    // operation resolves to an asynchronous wait, never an error and never
    // an empty success
    let trace = vec![ReadEvent::WouldBlock, ReadEvent::WouldBlock, ReadEvent::WouldBlock];
    match s.read(&trace) {
        ReadOutcome::Pending => {},
        _ => panic!("a read with no data must wait"),
    }
    assert_eq!(s.get_ref().fills, 3); // one transport step per would-block
    assert_eq!(s.get_ref().flushes, 0);
}

#[test]
fn read_returns_exactly_the_engine_bytes() {
    let mut s = SslStream::from_parts(Bridge::new(), ScriptedTransport::new(vec![0; 8]));
    let trace = vec![ReadEvent::WouldBlock, ReadEvent::Data(vec![7, 8, 9])];
    match s.read(&trace) {
        ReadOutcome::Data(d) => assert_eq!(d, vec![7, 8, 9]),
        _ => panic!("expected data"),
    }
    assert_eq!(s.get_ref().fills, 1);
}

#[test]
fn read_cancelled_before_its_fill_resolves_leaves_stream_usable() {
    let mut s = SslStream::from_parts(Bridge::new(), ScriptedTransport::new(vec![0; 8]));
    // a write left bytes pending; the cancelled read must not disturb them
    assert_eq!(s.write(&vec![42], &vec![WriteEvent::Accepted(1)]), WriteOutcome::Wrote(1));
    let cancelled = vec![ReadEvent::WouldBlock, ReadEvent::WouldBlock];
    match s.read(&cancelled) {
        ReadOutcome::Pending => {},
        _ => panic!("the cancelled read must have been waiting"),
    }
    // once data arrives, a subsequent read succeeds
    let retry = vec![ReadEvent::Data(vec![5])];
    match s.read(&retry) {
        ReadOutcome::Data(d) => assert_eq!(d, vec![5]),
        _ => panic!("the stream must still be usable"),
    }
    // and the pending write bytes are still intact
    assert_eq!(s.flush(&vec![FlushEvent::Done]), FlushOutcome::Flushed);
    assert_eq!(s.get_ref().delivered, vec![42]);
}

#[test]
fn read_engine_fault_propagates() {
    let mut s = fresh_stream();
    let fault = EngineFault { code: 5 };
    let trace = vec![ReadEvent::Fault(fault)];
    match s.read(&trace) {
        ReadOutcome::Failed(StreamError::EngineFailure(f)) => assert_eq!(f, fault),
        _ => panic!("expected the engine fault"),
    }
}

#[test]
fn read_transport_error_propagates_unmodified() {
    let io = TransportError { code: 77 };
    let mut transport = ScriptedTransport::new(Vec::new());
    transport.fill_plan = vec![StepResponse::Fail(io)];
    let mut s = SslStream::from_parts(Bridge::new(), transport);
    match s.read(&vec![ReadEvent::WouldBlock, ReadEvent::Data(vec![1])]) {
        ReadOutcome::Failed(StreamError::Io(e)) => assert_eq!(e, io),
        _ => panic!("expected the I/O failure"),
    }
}

#[test]
fn write_split_by_would_block_flushes_once_and_loses_nothing() {
    // write(1500 bytes): the engine takes 500, then would-block forces one
    // flush, then the remaining 1000 go through; the transport observes all
    // 1500 bytes, in order, across the two engine write calls
    let data: Vec<u8> = (0..1500u32).map(|i| (i % 251) as u8).collect();
    let mut s = fresh_stream();
    match s.write(&data, &vec![WriteEvent::Accepted(500)]) {
        WriteOutcome::Wrote(n) => assert_eq!(n, 500),
        _ => panic!("expected a partial write"),
    }
    assert_eq!(s.get_ref().flushes, 0);
    let rest: Vec<u8> = data[500..].to_vec();
    match s.write(&rest, &vec![WriteEvent::WouldBlock, WriteEvent::Accepted(1000)]) {
        WriteOutcome::Wrote(n) => assert_eq!(n, 1000),
        _ => panic!("expected the remainder to be written"),
    }
    assert_eq!(s.get_ref().flushes, 1); // exactly one flush absorbed the would-block
    assert_eq!(s.flush(&vec![FlushEvent::Done]), FlushOutcome::Flushed);
    assert_eq!(s.get_ref().delivered, data);
}

#[test]
fn write_then_flush_delivers_exactly_the_bytes_in_order() {
    let data = vec![3, 1, 4, 1, 5, 9, 2, 6];
    let mut s = fresh_stream();
    match s.write(&data, &vec![WriteEvent::Accepted(8)]) {
        WriteOutcome::Wrote(n) => assert_eq!(n, 8),
        _ => panic!("expected a full write"),
    }
    assert_eq!(
        s.flush(&vec![FlushEvent::WouldBlock, FlushEvent::Done]),
        FlushOutcome::Flushed
    );
    assert_eq!(s.get_ref().delivered, data);
    assert_eq!(s.get_ref().flushes, 2); // one absorbing, one trailing
}

#[test]
fn shutdown_after_failed_flush_still_shuts_transport_down_once() {
    let fault = EngineFault { code: 99 };
    let mut s = fresh_stream();
    // even a transport whose shutdown would itself fail does not mask the
    // original flush error
    s.get_mut().shutdown_response = Some(TransportError { code: 1 });
    let flush_trace = vec![FlushEvent::WouldBlock, FlushEvent::Fault(fault)];
    match s.shutdown(&flush_trace) {
        ShutdownOutcome::Failed(StreamError::EngineFailure(f)) => assert_eq!(f, fault),
        _ => panic!("the original flush error must propagate unmasked"),
    }
    assert_eq!(s.get_ref().shutdowns, 1);
}

#[test]
fn shutdown_flushes_then_shuts_transport_down() {
    let mut s = fresh_stream();
    assert_eq!(s.write(&vec![1, 2], &vec![WriteEvent::Accepted(2)]), WriteOutcome::Wrote(2));
    assert_eq!(s.shutdown(&vec![FlushEvent::Done]), ShutdownOutcome::Shutdown);
    assert_eq!(s.get_ref().shutdowns, 1);
    assert_eq!(s.get_ref().delivered, vec![1, 2]);
}

#[test]
fn bridge_facade_never_blocks_and_keeps_order() {
    let mut b = Bridge::new();
    assert_eq!(b.read(4), None); // empty read buffer: would-block
    assert_eq!(b.write(&[1, 2, 3]), 3); // write always accepts
    assert_eq!(b.pending_len(), 3);
    b.supply(&[7, 8, 9, 10]);
    assert_eq!(b.read(2), Some(vec![7, 8])); // the first bytes, in order
    assert_eq!(b.read(10), Some(vec![9, 10]));
    assert_eq!(b.read(1), None);
    assert_eq!(b.extract_front(3), vec![1, 2, 3]);
    assert!(!b.has_pending_write());
}
