use std::ops::ControlFlow;

use mini_proxad::clock::{Span, Timestamp};
use mini_proxad::dumper::{write_tcp_flow, DumpError};
use mini_proxad::filter::{Filter, FilterModule, OpenReply, RawReply};
use mini_proxad::flow::{Endpoint, Flow, IpAddress, IsFlow, RawFlow, Side};
use mini_proxad::history::RawHistory;
use mini_proxad::http::HttpConfig;
use mini_proxad::proxy::{
    AcceptEvent, AcceptStep, Ending, FlowStatus, Proxy, RawStep, ReadEvent,
};
use mini_proxad::service::Service;
use mini_proxad::stream::{ChunkReader, PollOutcome, ReadStep, SCRATCH_LEN};

fn endpoint(last: u8, port: u16) -> Endpoint {
    Endpoint { ip: IpAddress::V4([10, 0, 0, last]), port }
}

fn service(http: bool) -> Service {
    Service {
        name: String::from("echo"),
        client_addr: endpoint(1, 8080),
        server_addr: endpoint(2, 9090),
        client_timeout: Span { secs: 30, nanos: 0 },
        server_timeout: Span { secs: 5, nanos: 250 },
        client_max_history: 16,
        server_max_history: 64,
        tls_config: None,
        http_config: if http {
            Some(HttpConfig {
                keep_alive: true,
                half_close: false,
                date_header: true,
                max_body: 1024,
                client_timeout: Span { secs: 30, nanos: 0 },
            })
        } else {
            None
        },
    }
}

fn module(raw_client: bool, raw_open: bool) -> FilterModule {
    FilterModule { http_filter: false, http_open: false, raw_client, raw_server: false, raw_open }
}

#[test]
fn read_chunk_reports_each_status() {
    let mut h = RawHistory::new(16);
    let at = Timestamp::new(100, 0);
    assert_eq!(Proxy::read_chunk_at(&mut h, &ReadEvent::TimedOut, at), FlowStatus::Timeout);
    assert_eq!(h.chunks.len(), 0);
    assert_eq!(Proxy::read_chunk_at(&mut h, &ReadEvent::Data(vec![]), at), FlowStatus::Closed);
    assert_eq!(h.chunks.len(), 0);
    assert_eq!(h.bytes.len(), 0);
    assert_eq!(
        Proxy::read_chunk_at(&mut h, &ReadEvent::Data(b"ping\n".to_vec()), at),
        FlowStatus::Read
    );
    assert_eq!(h.bytes, b"ping\n".to_vec());
    assert_eq!(h.chunks.len(), 1);
    assert_eq!(h.chunks[0].range, 0..5);
    assert_eq!(h.chunks[0].timestamp, at);
    assert_eq!(Proxy::write_last_chunk(&h), b"ping\n");
}

#[test]
fn history_too_big_exactly_at_the_ceiling() {
    let mut h = RawHistory::new(16);
    let at = Timestamp::new(1, 0);
    assert_eq!(
        Proxy::read_chunk_at(&mut h, &ReadEvent::Data(vec![7; 15]), at),
        FlowStatus::Read
    );
    assert_eq!(
        Proxy::read_chunk_at(&mut h, &ReadEvent::Data(vec![8; 1]), at),
        FlowStatus::HistoryTooBig
    );
    assert_eq!(h.bytes.len(), 16);
    assert_eq!(h.chunks.len(), 2);
    assert_eq!(h.chunks[1].range, 15..16);
}

#[test]
fn history_overflow_records_the_whole_read() {
    let mut h = RawHistory::new(16);
    let status = Proxy::read_chunk(&mut h, &ReadEvent::Data(vec![1; 32]));
    assert_eq!(status, FlowStatus::HistoryTooBig);
    assert_eq!(h.bytes.len(), 32);
    assert_eq!(h.chunks.len(), 1);
    assert_eq!(h.chunks[0].range, 0..32);
    assert_eq!(Proxy::write_last_chunk(&h).len(), 32);
    let proxy = Proxy::new(service(false));
    assert_eq!(
        proxy.after_read(Side::Client, status, false),
        RawStep::Close(Ending::HistoryFull(Side::Client))
    );
}

#[test]
fn zero_ceiling_closes_on_first_chunk() {
    let mut h = RawHistory::new(0);
    assert_eq!(
        Proxy::read_chunk(&mut h, &ReadEvent::Data(vec![1])),
        FlowStatus::HistoryTooBig
    );
    assert_eq!(Proxy::read_chunk(&mut h, &ReadEvent::Data(vec![])), FlowStatus::Closed);
    assert_eq!(Proxy::read_chunk(&mut h, &ReadEvent::TimedOut), FlowStatus::Timeout);
}

#[test]
fn after_read_forwards_with_the_peers_timeout() {
    let proxy = Proxy::new(service(false));
    assert_eq!(
        proxy.after_read(Side::Client, FlowStatus::Read, false),
        RawStep::Forward { from: Side::Client, timeout: Span { secs: 5, nanos: 250 } }
    );
    assert_eq!(
        proxy.after_read(Side::Server, FlowStatus::Read, false),
        RawStep::Forward { from: Side::Server, timeout: Span { secs: 30, nanos: 0 } }
    );
    assert_eq!(proxy.after_read(Side::Client, FlowStatus::Read, true), RawStep::RunHook(Side::Client));
    assert_eq!(
        proxy.after_read(Side::Server, FlowStatus::Closed, true),
        RawStep::Close(Ending::Eof(Side::Server))
    );
    assert_eq!(
        proxy.after_read(Side::Client, FlowStatus::Timeout, false),
        RawStep::Close(Ending::IdleTimeout(Side::Client))
    );
    assert_eq!(proxy.read_timeout(Side::Client), Span { secs: 30, nanos: 0 });
    assert_eq!(proxy.read_timeout(Side::Server), Span { secs: 5, nanos: 250 });
    assert_eq!(proxy.write_timeout(Side::Server), Span { secs: 5, nanos: 250 });
    assert_eq!(Side::Client.opposite(), Side::Server);
    assert_eq!(Side::Server.opposite(), Side::Client);
}

#[test]
fn after_hook_forwards_or_kills() {
    let proxy = Proxy::new(service(false));
    assert_eq!(
        proxy.after_hook(Side::Client, ControlFlow::Continue(())),
        RawStep::Forward { from: Side::Client, timeout: Span { secs: 5, nanos: 250 } }
    );
    assert_eq!(
        proxy.after_hook(Side::Server, ControlFlow::Break(())),
        RawStep::Close(Ending::Killed)
    );
    assert_eq!(proxy.after_open(ControlFlow::Continue(())), RawStep::Select);
    assert_eq!(proxy.after_open(ControlFlow::Break(())), RawStep::Close(Ending::Killed));
}

#[test]
fn new_flow_follows_the_service() {
    let raw = Proxy::new(service(false)).new_flow(endpoint(9, 4000));
    match &raw {
        Flow::Raw(flow) => {
            assert_eq!(flow.client_history.max_size, 16);
            assert_eq!(flow.server_history.max_size, 64);
            assert_eq!(flow.client_addr.port, 4000);
            assert_eq!(flow.server_addr.port, 9090);
            assert_eq!(flow.client_history.bytes.len(), 0);
        }
        Flow::Http(_) => panic!("a service without HTTP settings relays raw flows"),
    }
    assert_eq!((raw.get_id().value >> 76) & 0xf, 4);
    assert_eq!((raw.get_id().value >> 62) & 0x3, 2);
    assert!(raw.get_start().secs > 1_600_000_000);
    assert_eq!(raw.get_client_addr().port, 4000);
    assert_eq!(raw.get_server_addr().port, 9090);
    let http = Proxy::new(service(true)).new_flow(endpoint(9, 4000));
    match &http {
        Flow::Http(flow) => {
            assert_eq!(flow.history.client_max, 16);
            assert_eq!(flow.history.server_max, 64);
            assert_eq!(flow.history.requests.len(), 0);
        }
        Flow::Raw(_) => panic!("a service with HTTP settings relays HTTP flows"),
    }
    let other = Proxy::new(service(true)).new_flow(endpoint(9, 4000));
    assert_ne!(http.get_id(), other.get_id());
}

#[test]
fn raw_passthrough_small_chunk() {
    let proxy = Proxy::new(service(false));
    let mut flow = RawFlow::with_identity(
        mini_proxad::flow::FlowId { value: 1 },
        Timestamp::new(50, 0),
        endpoint(9, 4000),
        1024,
        endpoint(2, 9090),
        1024,
    );
    assert_eq!(proxy.after_open(ControlFlow::Continue(())), RawStep::Select);
    let status = Proxy::read_chunk_at(
        &mut flow.client_history,
        &ReadEvent::Data(b"ping\n".to_vec()),
        Timestamp::new(51, 0),
    );
    assert!(matches!(
        proxy.after_read(Side::Client, status, false),
        RawStep::Forward { from: Side::Client, .. }
    ));
    assert_eq!(Proxy::write_last_chunk(&flow.client_history), b"ping\n");
    let status = Proxy::read_chunk_at(
        &mut flow.server_history,
        &ReadEvent::Data(b"pong\n".to_vec()),
        Timestamp::new(52, 0),
    );
    assert!(matches!(
        proxy.after_read(Side::Server, status, false),
        RawStep::Forward { from: Side::Server, .. }
    ));
    assert_eq!(Proxy::write_last_chunk(&flow.server_history), b"pong\n");
    assert_eq!(flow.client_history.chunks.len(), 1);
    assert_eq!(flow.client_history.chunks[0].range, 0..5);
    assert_eq!(flow.server_history.chunks.len(), 1);
    assert_eq!(flow.server_history.chunks[0].range, 0..5);
    let packets = write_tcp_flow(&Flow::Raw(flow)).unwrap();
    assert_eq!(packets.len(), 6);
}

#[test]
fn raw_hook_rewrite() {
    let proxy = Proxy::new(service(false));
    let filter = Filter::new(String::from("/tmp/hook.py"), module(true, false));
    let mut flow = RawFlow::new(endpoint(9, 4000), 1024, endpoint(2, 9090), 1024);
    let status = Proxy::read_chunk_at(
        &mut flow.client_history,
        &ReadEvent::Data(b"foo+foo".to_vec()),
        Timestamp::new(77, 123),
    );
    assert_eq!(proxy.after_read(Side::Client, status, true), RawStep::RunHook(Side::Client));
    let before = flow.client_history.last_timestamp();
    let verdict = filter.on_raw_client(&mut flow, RawReply::Replace(b"BAR+BAR".to_vec()));
    assert_eq!(verdict, ControlFlow::Continue(()));
    assert!(matches!(
        proxy.after_hook(Side::Client, verdict),
        RawStep::Forward { from: Side::Client, .. }
    ));
    assert_eq!(Proxy::write_last_chunk(&flow.client_history), b"BAR+BAR");
    assert_eq!(flow.client_history.last_chunk(), b"BAR+BAR");
    assert_eq!(flow.client_history.chunks.len(), 1);
    assert_eq!(flow.client_history.chunks[0].range, 0..7);
    assert_eq!(flow.server_history.bytes.len(), 0);
    assert_eq!(flow.server_history.chunks.len(), 0);
    assert_eq!(flow.client_history.last_timestamp(), before);
    assert_eq!(before, Timestamp::new(77, 123));
}

#[test]
fn raw_hook_kill() {
    let proxy = Proxy::new(service(false));
    let filter = Filter::new(String::from("/tmp/hook.py"), module(false, true));
    let flow = RawFlow::new(endpoint(9, 4000), 1024, endpoint(2, 9090), 1024);
    let verdict = filter.on_raw_open(OpenReply::Terminate);
    assert_eq!(verdict, ControlFlow::Break(()));
    assert_eq!(proxy.after_open(verdict), RawStep::Close(Ending::Killed));
    assert_eq!(flow.client_history.bytes.len(), 0);
    assert_eq!(flow.server_history.bytes.len(), 0);
    assert_eq!(write_tcp_flow(&Flow::Raw(flow)).unwrap_err(), DumpError::NoChunks);
}

#[test]
fn chunk_reader_returns_as_soon_as_bytes_are_there() {
    assert_eq!(SCRATCH_LEN, 4096);
    let mut buffer = b"old".to_vec();
    let mut reader = ChunkReader::new();
    assert_eq!(reader.step(&mut buffer, PollOutcome::Pending), ReadStep::Wait);
    assert_eq!(reader.step(&mut buffer, PollOutcome::Filled(b"abc")), ReadStep::Again);
    assert_eq!(reader.step(&mut buffer, PollOutcome::Filled(b"de")), ReadStep::Again);
    assert_eq!(reader.step(&mut buffer, PollOutcome::Pending), ReadStep::Done(5));
    assert_eq!(buffer, b"oldabcde".to_vec());
}

#[test]
fn chunk_reader_treats_unexpected_eof_as_end_of_stream() {
    let mut buffer = Vec::new();
    let mut reader = ChunkReader::new();
    assert_eq!(reader.step(&mut buffer, PollOutcome::UnexpectedEof), ReadStep::Done(0));
    let mut reader = ChunkReader::new();
    assert_eq!(reader.step(&mut buffer, PollOutcome::Filled(b"xy")), ReadStep::Again);
    assert_eq!(reader.step(&mut buffer, PollOutcome::UnexpectedEof), ReadStep::Done(2));
    let mut reader = ChunkReader::new();
    assert_eq!(reader.step(&mut buffer, PollOutcome::Filled(b"")), ReadStep::Done(0));
    assert_eq!(reader.step(&mut buffer, PollOutcome::Failed), ReadStep::Fail);
    assert_eq!(buffer, b"xy".to_vec());
}

#[test]
fn acceptor_never_stops_on_a_failure() {
    let raw = Proxy::new(service(false));
    let http = Proxy::new(service(true));
    assert_eq!(raw.handle_accept(AcceptEvent::AcceptFailed, true), AcceptStep::Next);
    assert_eq!(raw.handle_accept(AcceptEvent::ConnectFailed, false), AcceptStep::ShutdownClient);
    assert_eq!(raw.handle_accept(AcceptEvent::Connected, true), AcceptStep::RelayRaw);
    assert_eq!(http.handle_accept(AcceptEvent::Connected, false), AcceptStep::Handshake);
    assert_eq!(http.handle_accept(AcceptEvent::HandshakeFailed, true), AcceptStep::Next);
    assert_eq!(http.handle_accept(AcceptEvent::HandshakeDone, true), AcceptStep::RunOpenHook);
    assert_eq!(http.handle_accept(AcceptEvent::HandshakeDone, false), AcceptStep::ServeHttp);
    assert_eq!(
        http.handle_accept(AcceptEvent::Opened(ControlFlow::Break(())), true),
        AcceptStep::Next
    );
    assert_eq!(
        http.handle_accept(AcceptEvent::Opened(ControlFlow::Continue(())), true),
        AcceptStep::ServeHttp
    );
}

#[test]
fn passthrough_writes_what_it_reads() {
    let proxy = Proxy::new(service(false));
    let mut history = RawHistory::new(1 << 20);
    let reads: Vec<&[u8]> = vec![b"GET / HTTP/1.1\r\n", b"host: a\r\n", b"\r\n", b"\x00\xff", b"tail"];
    let mut written = Vec::new();
    for (i, read) in reads.iter().enumerate() {
        let status = Proxy::read_chunk_at(
            &mut history,
            &ReadEvent::Data(read.to_vec()),
            Timestamp::new(i as i64, 0),
        );
        assert_eq!(status, FlowStatus::Read);
        assert!(matches!(
            proxy.after_read(Side::Client, status, false),
            RawStep::Forward { from: Side::Client, .. }
        ));
        written.extend_from_slice(Proxy::write_last_chunk(&history));
    }
    assert_eq!(written, reads.concat());
    assert_eq!(written, history.bytes);
    assert_eq!(history.chunks.len(), reads.len());
    let mut at = 0;
    for chunk in history.chunks.iter() {
        assert_eq!(chunk.range.start, at);
        at = chunk.range.end;
    }
    assert_eq!(at, history.bytes.len());
}
