use mini_proxad::clock::{Span, Timestamp};
use mini_proxad::config::Config;
use mini_proxad::dumper::{
    advance_seq, is_plain_template, render, route_of, scan_byte, synthesize, write_fragments, Scan,
    write_tcp_flow, write_tcp_handshake, DumpError, Dumper, Ends, SaveStep, Segment, TcpFlags,
    WindowEnd, EXDEV,
    WindowStep, CLIENT_ISN, DUMP_CHANNEL_LIMIT, MAX_PAYLOAD, MTU_LEN, SERVER_ISN, TTL, WINDOW,
};
use mini_proxad::flow::{Endpoint, Flow, FlowId, HttpFlow, IpAddress, RawFlow, Side};
use mini_proxad::http::{Header, HttpRequest, HttpResponse, HttpVersion};
use mini_proxad::iter::{
    ChunkBytes, EitherHttp, FlowItem, FlowIterator, HttpFlowIterator, RawFlowIterator,
};
use mini_proxad::service::{ConfigError, Service};

const SYN: TcpFlags = TcpFlags { fin: false, syn: true, psh: false, ack: false };
const SYN_ACK: TcpFlags = TcpFlags { fin: false, syn: true, psh: false, ack: true };
const ACK: TcpFlags = TcpFlags { fin: false, syn: false, psh: false, ack: true };
const PSH_ACK: TcpFlags = TcpFlags { fin: false, syn: false, psh: true, ack: true };
const FIN_ACK: TcpFlags = TcpFlags { fin: true, syn: false, psh: false, ack: true };

fn v4(last: u8, port: u16) -> Endpoint {
    Endpoint { ip: IpAddress::V4([10, 1, 2, last]), port }
}

fn raw_flow() -> RawFlow {
    RawFlow::with_identity(FlowId { value: 3 }, Timestamp::new(50, 0), v4(7, 40000), 1 << 20, v4(8, 443), 1 << 20)
}

fn item(side: Side, secs: i64, bytes: &[u8]) -> FlowItem<'static> {
    FlowItem {
        side,
        addr: v4(1, 1),
        timestamp: Timestamp::new(secs, 0),
        bytes: ChunkBytes::Owned(bytes.to_vec()),
    }
}

fn summary(s: &Segment) -> (i64, Side, u32, u32, TcpFlags, Vec<u8>) {
    (s.timestamp.secs, s.from, s.seq, s.ack, s.flags, s.payload.clone())
}

fn config() -> Config {
    Config {
        service_name: String::from("svc"),
        client_ip: IpAddress::V4([0, 0, 0, 0]),
        client_port: 1337,
        server_ip: IpAddress::V4([127, 0, 0, 1]),
        server_port: 80,
        client_timeout: Span { secs: 30, nanos: 0 },
        server_timeout: Span { secs: 30, nanos: 0 },
        client_max_history: 1000,
        server_max_history: 2000,
        tls_enabled: false,
        tls_cert_file: None,
        tls_key_file: None,
        tls_ca_file: None,
        python_script: None,
        http_enabled: false,
        http_keep_alive: true,
        http_half_close: false,
        http_date_header: true,
        http_max_body: 1024,
        dump_enabled: true,
        dump_path: Some(String::from("/var/dumps")),
        dump_format: Some(String::from("{service}_{client_port}_{timestamp}.pcap")),
        dump_interval: Some(Span { secs: 60, nanos: 0 }),
        dump_max_packets: 512,
    }
}

fn dumper(format: &str) -> Dumper {
    let mut c = config();
    c.dump_format = Some(String::from(format));
    let service = Service::from_config(&c).ok().unwrap();
    Dumper::start(&service, &c, String::from("0.0.0.0"), String::from("127.0.0.1")).ok().unwrap()
}

fn saved(end: WindowEnd) -> Option<String> {
    match end {
        WindowEnd::Save(name) => Some(name),
        _ => None,
    }
}

#[test]
fn failed_rename_across_file_systems_is_copied() {
    assert_eq!(EXDEV, 18);
    assert_eq!(Dumper::save_pcap(Some(18)), SaveStep::CopyAndRemove);
    assert_eq!(Dumper::save_pcap(Some(13)), SaveStep::Fail);
    assert_eq!(Dumper::save_pcap(None), SaveStep::Fail);
    assert_eq!(DumpError::OnlyIpv4.message(), "Only IPv4 supported");
    assert_eq!(DumpError::NoChunks.message(), "Malformed flow with no chunks");
}

#[test]
fn constants() {
    assert_eq!(DUMP_CHANNEL_LIMIT, 400);
    assert_eq!(MTU_LEN, 65535);
    assert_eq!(MAX_PAYLOAD, 65481);
    assert_eq!(CLIENT_ISN, 1000);
    assert_eq!(SERVER_ISN, 1_000_000);
    assert_eq!(TTL, 64);
    assert_eq!(WINDOW, 65535);
}

#[test]
fn handshake_segments() {
    let mut out = Vec::new();
    write_tcp_handshake(&mut out, Timestamp::new(5, 6));
    let got: Vec<_> = out.iter().map(summary).collect();
    assert_eq!(
        got,
        vec![
            (5, Side::Client, 1000, 0, SYN, vec![]),
            (5, Side::Server, 1_000_000, 1001, SYN_ACK, vec![]),
            (5, Side::Client, 1001, 1_000_001, ACK, vec![]),
        ]
    );
    assert_eq!(out[0].timestamp, Timestamp::new(5, 6));
}

#[test]
fn conversation_of_ping_and_pong() {
    let items = vec![item(Side::Client, 51, b"ping\n"), item(Side::Server, 52, b"pong\n")];
    let segments = synthesize(&items).ok().unwrap();
    let got: Vec<_> = segments.iter().map(summary).collect();
    assert_eq!(
        got,
        vec![
            (51, Side::Client, 1000, 0, SYN, vec![]),
            (51, Side::Server, 1_000_000, 1001, SYN_ACK, vec![]),
            (51, Side::Client, 1001, 1_000_001, ACK, vec![]),
            (51, Side::Client, 1001, 1_000_001, PSH_ACK, b"ping\n".to_vec()),
            (52, Side::Server, 1_000_001, 1006, PSH_ACK, b"pong\n".to_vec()),
            (52, Side::Server, 1_000_006, 1006, FIN_ACK, vec![]),
        ]
    );
}

#[test]
fn fin_comes_from_the_last_sender() {
    let items = vec![
        item(Side::Server, 1, b"banner"),
        item(Side::Client, 2, b"hi"),
        item(Side::Client, 3, b"there"),
    ];
    let segments = synthesize(&items).ok().unwrap();
    let got: Vec<_> = segments.iter().map(summary).collect();
    assert_eq!(got.len(), 7);
    assert_eq!(got[0].0, 1);
    assert_eq!(got[3], (1, Side::Server, 1_000_001, 1001, PSH_ACK, b"banner".to_vec()));
    assert_eq!(got[4], (2, Side::Client, 1001, 1_000_007, PSH_ACK, b"hi".to_vec()));
    assert_eq!(got[5], (3, Side::Client, 1003, 1_000_007, PSH_ACK, b"there".to_vec()));
    assert_eq!(got[6], (3, Side::Client, 1008, 1_000_007, FIN_ACK, vec![]));
}

#[test]
fn nothing_recorded_is_not_dumped() {
    assert_eq!(synthesize(&Vec::new()).err(), Some(DumpError::NoChunks));
    assert_eq!(write_tcp_flow(&Flow::Raw(raw_flow())).err(), Some(DumpError::NoChunks));
    let http = HttpFlow::with_identity(FlowId { value: 1 }, Timestamp::new(1, 0), v4(1, 1), 10, v4(2, 2), 10);
    assert_eq!(write_tcp_flow(&Flow::Http(http)).err(), Some(DumpError::NoChunks));
}

#[test]
fn fin_comes_from_the_side_of_the_last_data_segment() {
    let items = vec![item(Side::Client, 1, b"a"), item(Side::Server, 2, b"")];
    let segments = synthesize(&items).ok().unwrap();
    let got: Vec<_> = segments.iter().map(summary).collect();
    assert_eq!(got.len(), 5);
    assert_eq!(got[3], (1, Side::Client, 1001, 1_000_001, PSH_ACK, b"a".to_vec()));
    assert_eq!(got[4], (2, Side::Client, 1002, 1_000_001, FIN_ACK, vec![]));
    let items = vec![
        item(Side::Server, 1, b"hello"),
        item(Side::Client, 2, b""),
        item(Side::Client, 3, b""),
    ];
    let segments = synthesize(&items).ok().unwrap();
    let got: Vec<_> = segments.iter().map(summary).collect();
    assert_eq!(got.len(), 5);
    assert_eq!(got[4], (3, Side::Server, 1_000_006, 1001, FIN_ACK, vec![]));
}

#[test]
fn fin_of_a_replay_without_data_comes_from_the_last_item() {
    let items = vec![item(Side::Client, 1, b""), item(Side::Server, 2, b"")];
    let segments = synthesize(&items).ok().unwrap();
    let got: Vec<_> = segments.iter().map(summary).collect();
    assert_eq!(got.len(), 4);
    assert_eq!(got[3], (2, Side::Server, 1_000_001, 1001, FIN_ACK, vec![]));
    let items = vec![item(Side::Server, 1, b""), item(Side::Client, 2, b"")];
    let segments = synthesize(&items).ok().unwrap();
    assert_eq!(summary(&segments[3]), (2, Side::Client, 1001, 1_000_001, FIN_ACK, vec![]));
}

#[test]
fn large_chunk_is_cut_into_fragments() {
    let mut bytes = vec![0u8; 2 * MAX_PAYLOAD + 10];
    bytes[MAX_PAYLOAD] = 1;
    bytes[2 * MAX_PAYLOAD] = 2;
    let mut out = Vec::new();
    let next = write_fragments(&mut out, &item(Side::Client, 9, &bytes), 1001, 77);
    assert_eq!(out.len(), 3);
    assert_eq!(out[0].payload.len(), MAX_PAYLOAD);
    assert_eq!(out[1].payload.len(), MAX_PAYLOAD);
    assert_eq!(out[2].payload.len(), 10);
    assert_eq!(out[1].payload[0], 1);
    assert_eq!(out[2].payload[0], 2);
    assert_eq!(out[0].flags, ACK);
    assert_eq!(out[1].flags, ACK);
    assert_eq!(out[2].flags, PSH_ACK);
    assert_eq!(out[0].seq, 1001);
    assert_eq!(out[1].seq, 1001 + 65481);
    assert_eq!(out[2].seq, 1001 + 2 * 65481);
    assert_eq!(out[2].ack, 77);
    assert_eq!(next, 1001 + 2 * 65481 + 10);
    let carried: Vec<u8> = out.iter().flat_map(|s| s.payload.iter().copied()).collect();
    assert_eq!(carried, bytes);
    let mut exact = Vec::new();
    write_fragments(&mut exact, &item(Side::Server, 9, &vec![0u8; MAX_PAYLOAD]), 5, 6);
    assert_eq!(exact.len(), 1);
    assert_eq!(exact[0].flags, PSH_ACK);
}

#[test]
fn sequence_numbers_wrap() {
    assert_eq!(advance_seq(u32::MAX - 1, 5), 3);
    assert_eq!(advance_seq(u32::MAX, 0), u32::MAX);
    assert_eq!(advance_seq(u32::MAX, 1), 0);
    assert_eq!(advance_seq(1000, MAX_PAYLOAD), 66481);
    assert_eq!(advance_seq(7, usize::MAX), 6);
    assert_eq!(advance_seq(7, 1 << 32), 7);
    assert_eq!(advance_seq(u32::MAX, u32::MAX as usize), u32::MAX - 1);
    let mut out = Vec::new();
    let next = write_fragments(&mut out, &item(Side::Client, 1, b"abcd"), u32::MAX - 1, 0);
    assert_eq!(next, 2);
}

#[test]
fn frames_carry_the_segment() {
    let ends = Ends { client_ip: [10, 1, 2, 7], client_port: 40000, server_ip: [10, 1, 2, 8], server_port: 443 };
    let segments = synthesize(&vec![item(Side::Client, 51, b"ping\n"), item(Side::Server, 52, b"pong\n")])
        .ok()
        .unwrap();
    let packets = render(&segments, &ends).ok().unwrap();
    assert_eq!(packets.len(), 6);
    let syn = &packets[0].data;
    assert_eq!(syn.len(), 54);
    assert_eq!(&syn[0..6], &[0x22; 6]);
    assert_eq!(&syn[6..12], &[0x11; 6]);
    assert_eq!(&syn[12..14], &[0x08, 0x00]);
    assert_eq!(syn[14], 0x45);
    assert_eq!(&syn[16..18], &[0, 40]);
    assert_eq!(syn[22], 64);
    assert_eq!(syn[23], 6);
    assert_eq!(&syn[26..30], &[10, 1, 2, 7]);
    assert_eq!(&syn[30..34], &[10, 1, 2, 8]);
    assert_eq!(&syn[34..36], &40000u16.to_be_bytes());
    assert_eq!(&syn[36..38], &443u16.to_be_bytes());
    assert_eq!(&syn[38..42], &1000u32.to_be_bytes());
    assert_eq!(&syn[42..46], &0u32.to_be_bytes());
    assert_eq!(syn[47], 0x02);
    assert_eq!(&syn[48..50], &[0xff, 0xff]);
    let syn_ack = &packets[1].data;
    assert_eq!(&syn_ack[26..30], &[10, 1, 2, 8]);
    assert_eq!(&syn_ack[30..34], &[10, 1, 2, 7]);
    assert_eq!(&syn_ack[34..36], &443u16.to_be_bytes());
    assert_eq!(&syn_ack[38..42], &1_000_000u32.to_be_bytes());
    assert_eq!(&syn_ack[42..46], &1001u32.to_be_bytes());
    assert_eq!(syn_ack[47], 0x12);
    assert_eq!(&syn_ack[0..6], &[0x22; 6]);
    assert_eq!(packets[2].data[47], 0x10);
    let ping = &packets[3].data;
    assert_eq!(ping.len(), 59);
    assert_eq!(ping[47], 0x18);
    assert_eq!(&ping[54..], b"ping\n");
    assert_eq!(packets[3].timestamp, Timestamp::new(51, 0));
    let pong = &packets[4].data;
    assert_eq!(&pong[54..], b"pong\n");
    assert_eq!(&pong[38..42], &1_000_001u32.to_be_bytes());
    assert_eq!(&pong[42..46], &1006u32.to_be_bytes());
    let fin = &packets[5].data;
    assert_eq!(fin[47], 0x11);
    assert_eq!(fin.len(), 54);
    assert_eq!(packets[5].timestamp, Timestamp::new(52, 0));
    let route = route_of(&ends, Side::Server);
    assert_eq!(route.src_ip, [10, 1, 2, 8]);
    assert_eq!(route.dst_port, 40000);
    assert_eq!(route.src_mac, [0x11; 6]);
    assert_eq!(route.dst_mac, [0x22; 6]);
    assert_eq!(route.ttl, 64);
    assert_eq!(route.window, 65535);
}

#[test]
fn oversized_payload_has_no_frame() {
    let ends = Ends { client_ip: [1, 1, 1, 1], client_port: 1, server_ip: [2, 2, 2, 2], server_port: 2 };
    let segment = Segment {
        timestamp: Timestamp::new(1, 0),
        from: Side::Client,
        seq: 1,
        ack: 1,
        flags: ACK,
        payload: vec![0u8; 70000],
    };
    assert_eq!(render(&vec![segment], &ends).err(), Some(DumpError::Frame));
    let largest = Segment {
        timestamp: Timestamp::new(1, 0),
        from: Side::Client,
        seq: 1,
        ack: 1,
        flags: ACK,
        payload: vec![0u8; MAX_PAYLOAD],
    };
    let packets = render(&vec![largest], &ends).ok().unwrap();
    assert_eq!(packets[0].data.len(), MTU_LEN);
}

#[test]
fn only_ipv4_flows_are_dumped() {
    let mut flow = raw_flow();
    flow.client_history.push_chunk(b"x", Timestamp::new(1, 0));
    flow.server_addr = Endpoint { ip: IpAddress::V6([0; 16]), port: 443 };
    assert_eq!(write_tcp_flow(&Flow::Raw(flow)).err(), Some(DumpError::OnlyIpv4));
    let mut flow = raw_flow();
    flow.client_addr = Endpoint { ip: IpAddress::V6([0; 16]), port: 1 };
    assert_eq!(write_tcp_flow(&Flow::Raw(flow)).err(), Some(DumpError::OnlyIpv4));
}

#[test]
fn raw_chunks_merge_by_time_with_ties_to_the_client() {
    let mut flow = raw_flow();
    flow.client_history.push_chunk(b"c1", Timestamp::new(1, 0));
    flow.client_history.push_chunk(b"c2", Timestamp::new(5, 0));
    flow.client_history.push_chunk(b"c3", Timestamp::new(9, 0));
    flow.server_history.push_chunk(b"s1", Timestamp::new(2, 0));
    flow.server_history.push_chunk(b"s2", Timestamp::new(5, 0));
    let mut it = RawFlowIterator::new(&flow);
    let mut order = Vec::new();
    while let Some((side, chunk)) = it.next() {
        order.push((side, chunk.timestamp.secs, chunk.range));
    }
    assert_eq!(
        order,
        vec![
            (Side::Client, 1, 0..2),
            (Side::Server, 2, 0..2),
            (Side::Client, 5, 2..4),
            (Side::Server, 5, 2..4),
            (Side::Client, 9, 4..6),
        ]
    );
    assert!(it.next().is_none());
    let flow = Flow::Raw(flow);
    let items = FlowIterator::collect(&flow);
    let bytes: Vec<Vec<u8>> = items.iter().map(|i| i.bytes.as_slice().to_vec()).collect();
    assert_eq!(bytes, vec![b"c1".to_vec(), b"s1".to_vec(), b"c2".to_vec(), b"s2".to_vec(), b"c3".to_vec()]);
    assert_eq!(items[1].addr.port, 443);
    assert_eq!(items[0].addr.port, 40000);
    assert_eq!(write_tcp_flow(&flow).ok().unwrap().len(), 3 + 5 + 1);
}

#[test]
fn http_messages_interleave_by_index() {
    let mut http = HttpFlow::with_identity(FlowId { value: 1 }, Timestamp::new(1, 0), v4(1, 1111), 100, v4(2, 80), 100);
    let get = |uri: &str| HttpRequest {
        method: b"GET".to_vec(),
        uri: uri.as_bytes().to_vec(),
        version: HttpVersion::Http11,
        headers: vec![Header { name: b"host".to_vec(), value: b"h".to_vec() }],
        body: vec![],
    };
    http.history.push_request_at(get("/a"), 0, Timestamp::new(10, 0));
    http.history.push_request_at(get("/b"), 0, Timestamp::new(11, 0));
    http.history.push_request_at(get("/c"), 0, Timestamp::new(12, 0));
    http.history.push_response_at(HttpResponse::new(200, b"A".to_vec()), 1, Timestamp::new(20, 0));
    let mut it = HttpFlowIterator::new(&http);
    let mut sides = Vec::new();
    while let Some((side, at, _)) = it.next() {
        sides.push((side, at.secs));
    }
    assert_eq!(
        sides,
        vec![(Side::Client, 10), (Side::Server, 20), (Side::Client, 11), (Side::Client, 12)]
    );
    assert!(it.next().is_none());
    let flow = Flow::Http(http);
    let mut it = FlowIterator::new(&flow);
    let first = it.next().unwrap();
    assert_eq!(first.bytes.as_slice(), b"GET /a HTTP/1.1\r\nhost: h\r\n\r\n");
    assert_eq!(first.addr.port, 1111);
    let second = it.next().unwrap();
    assert_eq!(second.bytes.as_slice(), b"HTTP/1.1 200 OK\r\n\r\nA");
    assert_eq!(second.side, Side::Server);
    assert_eq!(second.addr.port, 80);
    let third = it.next().unwrap();
    assert_eq!(third.bytes.as_slice(), b"GET /b HTTP/1.1\r\nhost: h\r\n\r\n");
    let fourth = it.next().unwrap();
    assert_eq!(fourth.bytes.as_slice(), b"GET /c HTTP/1.1\r\nhost: h\r\n\r\n");
    assert_eq!(fourth.side, Side::Client);
    assert_eq!(fourth.addr.port, 1111);
    assert!(it.next().is_none());
    let packets = write_tcp_flow(&flow).ok().unwrap();
    assert_eq!(packets.len(), 3 + 4 + 1);
    assert_eq!(packets[0].timestamp, Timestamp::new(10, 0));
    assert_eq!(&packets[3].data[54..], b"GET /a HTTP/1.1\r\nhost: h\r\n\r\n");
    assert_eq!(&packets[6].data[54..], b"GET /c HTTP/1.1\r\nhost: h\r\n\r\n");
    assert_eq!(packets[7].data[47], 0x11);
    assert_eq!(&packets[7].data[34..36], &1111u16.to_be_bytes());
    assert_eq!(packets[7].timestamp, Timestamp::new(12, 0));
}

#[test]
fn http_replay_keeps_responses_without_a_request() {
    let mut http = HttpFlow::with_identity(FlowId { value: 1 }, Timestamp::new(1, 0), v4(1, 1111), 100, v4(2, 80), 100);
    let get = HttpRequest {
        method: b"GET".to_vec(),
        uri: b"/".to_vec(),
        version: HttpVersion::Http11,
        headers: vec![],
        body: vec![],
    };
    http.history.push_request_at(get, 0, Timestamp::new(10, 0));
    http.history.push_response_at(HttpResponse::new(200, b"0".to_vec()), 1, Timestamp::new(20, 0));
    http.history.push_response_at(HttpResponse::new(413, b"1".to_vec()), 1, Timestamp::new(21, 0));
    let mut it = HttpFlowIterator::new(&http);
    let mut seen = Vec::new();
    while let Some((side, at, message)) = it.next() {
        let status = match message {
            EitherHttp::Left(_) => 0,
            EitherHttp::Right(resp) => resp.status,
        };
        seen.push((side, at.secs, status));
    }
    assert_eq!(seen, vec![(Side::Client, 10, 0), (Side::Server, 20, 200), (Side::Server, 21, 413)]);
    assert!(it.next().is_none());
    let flow = Flow::Http(http);
    let items = FlowIterator::collect(&flow);
    assert_eq!(items.len(), 3);
    assert_eq!(items[2].addr.port, 80);
    assert_eq!(write_tcp_flow(&flow).ok().unwrap().len(), 3 + 3 + 1);

    let mut only_responses =
        HttpFlow::with_identity(FlowId { value: 2 }, Timestamp::new(1, 0), v4(1, 1111), 100, v4(2, 80), 100);
    only_responses.history.push_response_at(HttpResponse::new(500, vec![]), 0, Timestamp::new(5, 0));
    only_responses.history.push_response_at(HttpResponse::new(501, vec![]), 0, Timestamp::new(6, 0));
    let mut it = HttpFlowIterator::new(&only_responses);
    let mut sides = Vec::new();
    while let Some((side, at, _)) = it.next() {
        sides.push((side, at.secs));
    }
    assert_eq!(sides, vec![(Side::Server, 5), (Side::Server, 6)]);
    let packets = write_tcp_flow(&Flow::Http(only_responses)).ok().unwrap();
    assert_eq!(packets.len(), 3 + 2 + 1);
    assert_eq!(packets[0].timestamp, Timestamp::new(5, 0));
    assert_eq!(&packets[5].data[34..36], &80u16.to_be_bytes());
}

#[test]
fn dumper_needs_path_interval_and_format() {
    let mut c = config();
    let service = Service::from_config(&c).ok().unwrap();
    let d = Dumper::start(&service, &c, String::from("0.0.0.0"), String::from("127.0.0.1")).ok().unwrap();
    assert_eq!(d.path, "/var/dumps");
    assert_eq!(d.format, "{service}_{client_port}_{timestamp}.pcap");
    assert_eq!(d.interval, Span { secs: 60, nanos: 0 });
    assert_eq!(d.max_packets, 512);
    let vars: Vec<(&str, &str)> = d.format_map.iter().map(|(k, v)| (k.as_str(), v.as_str())).collect();
    assert_eq!(
        vars,
        vec![
            ("service", "svc"),
            ("client_ip", "0.0.0.0"),
            ("client_port", "1337"),
            ("server_ip", "127.0.0.1"),
            ("server_port", "80"),
            ("from_ip", "0.0.0.0"),
            ("from_port", "1337"),
            ("to_ip", "127.0.0.1"),
            ("to_port", "80"),
        ]
    );
    assert_eq!(Dumper::dump_path(&c).ok(), Some(String::from("/var/dumps")));
    c.dump_format = None;
    let start = |c: &Config| Dumper::start(&service, c, String::new(), String::new()).err();
    assert_eq!(start(&c), Some(ConfigError::DumpFormatRequired));
    c.dump_interval = None;
    assert_eq!(start(&c), Some(ConfigError::DumpIntervalRequired));
    c.dump_path = None;
    assert_eq!(start(&c), Some(ConfigError::DumpPathRequired));
    assert_eq!(Dumper::dump_path(&c).err(), Some(ConfigError::DumpPathRequired));
}

#[test]
fn window_rotates_on_time_or_count() {
    let d = dumper("{service}.pcap");
    assert_eq!(
        d.poll(Span { secs: 0, nanos: 0 }, 0),
        WindowStep::Receive(Span { secs: 60, nanos: 0 })
    );
    assert_eq!(
        d.poll(Span { secs: 59, nanos: 999_999_999 }, 512),
        WindowStep::Receive(Span { secs: 0, nanos: 1 })
    );
    assert_eq!(
        d.poll(Span { secs: 10, nanos: 500_000_000 }, 1),
        WindowStep::Receive(Span { secs: 49, nanos: 500_000_000 })
    );
    assert_eq!(d.poll(Span { secs: 60, nanos: 0 }, 0), WindowStep::Rotate);
    assert_eq!(d.poll(Span { secs: 61, nanos: 0 }, 0), WindowStep::Rotate);
    assert_eq!(d.poll(Span { secs: 1, nanos: 0 }, 513), WindowStep::Rotate);
    assert_eq!(Dumper::count(3, 6), 9);
    assert_eq!(Dumper::count(usize::MAX, 1), usize::MAX);
    assert_eq!(Dumper::count(usize::MAX - 1, 1), usize::MAX);
}

#[test]
fn window_end_names_the_file() {
    let d = dumper("{service}_{client_port}_{timestamp}.pcap");
    assert!(matches!(d.close_window_at(0, 1_700_000_000), WindowEnd::Discard));
    assert_eq!(
        saved(d.close_window_at(6, 1_700_000_000)),
        Some(String::from("svc_1337_1700000000.pcap"))
    );
    assert_eq!(
        saved(dumper("{from_ip}-{to_ip}:{to_port}").close_window_at(1, 5)),
        Some(String::from("0.0.0.0-127.0.0.1:80"))
    );
    assert_eq!(
        saved(dumper("{service:>6}|{service:<5}|{timestamp:^9}").close_window_at(1, 12345)),
        Some(String::from("   svc|svc  |  12345  "))
    );
    assert_eq!(saved(dumper("{service:.2}_1234").close_window_at(1, 5)), Some(String::from("sv_1234")));
    assert_eq!(
        saved(dumper("{from_ip}-{to_ip}.{to_port}").close_window_at(1, 5)),
        Some(String::from("0.0.0.0-127.0.0.1.80"))
    );
    assert_eq!(saved(dumper("{{x}}{timestamp}").close_window_at(1, -3)), Some(String::from("{x}-3")));
    assert!(matches!(dumper("{missing}").close_window_at(1, 5), WindowEnd::BadFormat));
    assert!(matches!(dumper("{service").close_window_at(1, 5), WindowEnd::BadFormat));
    assert!(matches!(dumper("{service:>10000}").close_window_at(1, 5), WindowEnd::TooWide));
    assert!(matches!(dumper("{service:>99999999999}").close_window_at(1, 5), WindowEnd::TooWide));
    assert!(matches!(dumper("{service:.>12345}").close_window_at(1, 5), WindowEnd::TooWide));
    assert!(matches!(dumper("{service:.5}{service:012345}").close_window_at(1, 5), WindowEnd::TooWide));
    assert_eq!(
        saved(dumper("{service:>1}_20240101").close_window_at(1, 5)),
        Some(String::from("svc_20240101"))
    );
    assert_eq!(
        saved(dumper("12:30_20240101_{service:>5}").close_window_at(1, 5)),
        Some(String::from("12:30_20240101_  svc"))
    );
    assert_eq!(
        saved(dumper("{{a:12345}}_{service}").close_window_at(1, 5)),
        Some(String::from("{a:12345}_svc"))
    );
    assert_eq!(saved(dumper("{service:>9999}").close_window_at(1, 5)).map(|n| n.len()), Some(9999));
    assert_eq!(saved(dumper("{service:.10000}").close_window_at(1, 5)), Some(String::from("svc")));
    assert_eq!(saved(dumper("{service:.2}").close_window_at(1, 5)), Some(String::from("sv")));
    assert_eq!(saved(dumper("{service:*>00005}").close_window_at(1, 5)), Some(String::from("**svc")));
    assert!(matches!(dumper("{service:>00005}").close_window_at(1, 5), WindowEnd::BadFormat));
    assert_eq!(
        saved(dumper("{service:.>5.12345}").close_window_at(1, 5)),
        Some(String::from("..svc"))
    );
    assert_eq!(
        saved(dumper("{service:5.99999}|").close_window_at(1, 5)),
        Some(String::from("svc  |"))
    );
    assert!(matches!(dumper("{service:d}").close_window_at(1, 5), WindowEnd::BadFormat));
    assert!(matches!(dumper("{service:>10000}").close_window_at(0, 5), WindowEnd::Discard));
    assert_eq!(
        saved(dumper("{service}_20240101").close_window_at(1, 5)),
        Some(String::from("svc_20240101"))
    );
    assert!(matches!(d.close_window(0), WindowEnd::Discard));
    let now = saved(d.close_window(1)).unwrap();
    assert!(now.starts_with("svc_1337_1"));
    assert!(now.ends_with(".pcap"));
    assert!(is_plain_template(""));
    assert!(is_plain_template("{a}_{b}"));
    assert!(is_plain_template("{a:5}"));
    assert!(is_plain_template("{a:9999}"));
    assert!(is_plain_template("{a:1234.56789}"));
    assert!(is_plain_template("{a:.56789}"));
    assert!(is_plain_template("{a:>00001}"));
    assert!(is_plain_template("{a:.>1.56789}"));
    assert!(is_plain_template("123456789"));
    assert!(is_plain_template("12345:67890"));
    assert!(is_plain_template("{a12345:1}"));
    assert!(is_plain_template("{a:1}:12345"));
    assert!(is_plain_template("{{:12345"));
    assert!(!is_plain_template("{a:10000}"));
    assert!(!is_plain_template("{a:>010000}"));
    assert!(!is_plain_template("{a:.>12345}"));
    assert!(!is_plain_template("{a:.^12345}"));
    assert!(!is_plain_template("{a::12345}"));
    assert!(!is_plain_template("}{}a:99999}"));
    assert!(!is_plain_template("{{{a:12345}"));
    assert!(!is_plain_template("{a:.1}{b:12345}"));
    let start = Scan {
        reading: false,
        opened: false,
        closing: false,
        in_spec: false,
        spec_len: 0,
        dot_first: false,
        precision: false,
        run: 0,
        wide: false,
    };
    let open = scan_byte(start, b'{');
    assert_eq!(open, Scan { reading: true, opened: true, ..start });
    assert_eq!(scan_byte(open, b'{'), start);
    let spec = scan_byte(scan_byte(open, b'a'), b':');
    assert_eq!(spec, Scan { reading: true, in_spec: true, ..start });
    assert_eq!(scan_byte(spec, b'7'), Scan { run: 1, spec_len: 1, ..spec });
    assert_eq!(scan_byte(spec, b'0'), Scan { run: 0, spec_len: 1, ..spec });
    assert_eq!(scan_byte(spec, b'.'), Scan { dot_first: true, spec_len: 1, ..spec });
    let dot = scan_byte(spec, b'.');
    assert_eq!(scan_byte(dot, b'>'), Scan { dot_first: true, spec_len: 2, ..spec });
    assert_eq!(scan_byte(dot, b'5'), Scan { dot_first: true, precision: true, spec_len: 2, ..spec });
    let later = Scan { spec_len: 2, ..spec };
    assert_eq!(scan_byte(later, b'.'), Scan { precision: true, ..later });
    assert_eq!(scan_byte(Scan { run: 4, ..later }, b'7'), Scan { run: 5, wide: true, ..later });
    assert_eq!(scan_byte(Scan { run: 4, precision: true, ..later }, b'7'), Scan { precision: true, ..later });
    assert_eq!(scan_byte(Scan { run: 3, ..later }, b'}'), start);
    assert_eq!(scan_byte(start, b'}'), Scan { closing: true, ..start });
    assert_eq!(scan_byte(start, b'7'), start);
    let vars = d.vars_at(12);
    assert_eq!(vars.len(), 10);
    assert_eq!(vars[9], (String::from("timestamp"), String::from("12")));
}
