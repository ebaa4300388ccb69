//! The synthesis of a TCP conversation from the recorded traffic of a flow,
//! and the rotation of capture files.

use vstd::prelude::*;
use crate::clock::Timestamp;
use crate::flow::Flow;
use crate::flow::IsFlow;
use crate::flow::IpAddress;
use crate::flow::Side;
use crate::iter::FlowItem;
use crate::iter::FlowIterator;
use crate::iter::ItemView;
use crate::iter::flow_items;
use crate::iter::items_view;
use crate::text::copy_bytes;
use crate::text::chars_of;
use crate::text::decimal;
use crate::text::signed_decimal;
use crate::text::decimal_text;
use crate::text::signed_decimal_text;
use crate::clock::Span;
use crate::clock::now;
use crate::config::Config;
use crate::service::ConfigError;
use crate::service::Service;

verus! {

/// How many finished flows may wait for the dumper.
pub const DUMP_CHANNEL_LIMIT: usize = 400;

/// The largest frame that is synthesised.
pub const MTU_LEN: usize = 65535;

/// The length of an Ethernet II header.
pub const ETHERNET_HEADER_LEN: usize = 14;

/// The length of an IPv4 header without options.
pub const IPV4_HEADER_LEN: usize = 20;

/// The length of a TCP header without options.
pub const TCP_HEADER_LEN: usize = 20;

/// The largest payload of one segment: what a frame holds after its headers.
pub const MAX_PAYLOAD: usize = MTU_LEN - ETHERNET_HEADER_LEN - IPV4_HEADER_LEN - TCP_HEADER_LEN;

/// The client's initial sequence number.
pub const CLIENT_ISN: u32 = 1000;

/// The server's initial sequence number.
pub const SERVER_ISN: u32 = 1000000;

/// The time to live of every synthesised IP packet.
pub const TTL: u8 = 64;

/// The window of every synthesised TCP segment.
pub const WINDOW: u16 = 65535;

/// The byte that fills the source address of every synthesised frame.
pub const SOURCE_MAC_BYTE: u8 = 0x11;

/// The byte that fills the destination address of every synthesised frame.
pub const DESTINATION_MAC_BYTE: u8 = 0x22;

/// The control bits of a segment that the synthesis uses.
#[derive(Clone, Copy, Debug, PartialEq, Eq, Structural)]
pub struct TcpFlags {
    pub fin: bool,
    pub syn: bool,
    pub psh: bool,
    pub ack: bool,
}

/// One synthesised TCP segment.
#[derive(Debug)]
pub struct Segment {
    pub timestamp: Timestamp,
    pub from: Side,
    pub seq: u32,
    pub ack: u32,
    pub flags: TcpFlags,
    pub payload: Vec<u8>,
}

/// A segment as a value.
pub struct SegmentView {
    pub timestamp: Timestamp,
    pub from: Side,
    pub seq: u32,
    pub ack: u32,
    pub flags: TcpFlags,
    pub payload: Seq<u8>,
}

impl View for Segment {
    type V = SegmentView;

    open spec fn view(&self) -> SegmentView {
        SegmentView {
            timestamp: self.timestamp,
            from: self.from,
            seq: self.seq,
            ack: self.ack,
            flags: self.flags,
            payload: self.payload@,
        }
    }
}

/// A list of segments as values.
pub open spec fn segments_view(segments: Seq<Segment>) -> Seq<SegmentView> {
    segments.map_values(|s: Segment| s@)
}

/// Why a flow is not dumped.
#[derive(Clone, Copy, Debug, PartialEq, Eq, Structural)]
pub enum DumpError {
    /// An end of the flow has no IPv4 address.
    OnlyIpv4,
    /// The flow recorded nothing.
    NoChunks,
    /// A frame could not be built: its segment carries too many bytes.
    Frame,
}

/// The sequence numbers of both sides at some point of the conversation.
pub struct Numbers {
    pub client_seq: u32,
    pub server_seq: u32,
}

/// A sequence number moved on by `len` bytes, wrapping at 32 bits.
pub open spec fn advance(seq: u32, len: int) -> u32 {
    ((seq + len) % 0x1_0000_0000) as u32
}

/// The next sequence number of `side`.
pub open spec fn seq_of(n: Numbers, side: Side) -> u32 {
    match side {
        Side::Client => n.client_seq,
        Side::Server => n.server_seq,
    }
}

/// The numbers after `side` has sent `len` bytes.
pub open spec fn after_sending(n: Numbers, side: Side, len: int) -> Numbers {
    match side {
        Side::Client => Numbers { client_seq: advance(n.client_seq, len), server_seq: n.server_seq },
        Side::Server => Numbers { client_seq: n.client_seq, server_seq: advance(n.server_seq, len) },
    }
}

/// The three segments that open the conversation at time `at`: SYN from
/// the client, SYN and ACK from the server, ACK from the client.
pub open spec fn handshake(at: Timestamp) -> Seq<SegmentView> {
    seq![
        SegmentView {
            timestamp: at,
            from: Side::Client,
            seq: CLIENT_ISN,
            ack: 0,
            flags: TcpFlags { fin: false, syn: true, psh: false, ack: false },
            payload: Seq::<u8>::empty(),
        },
        SegmentView {
            timestamp: at,
            from: Side::Server,
            seq: SERVER_ISN,
            ack: (CLIENT_ISN + 1) as u32,
            flags: TcpFlags { fin: false, syn: true, psh: false, ack: true },
            payload: Seq::<u8>::empty(),
        },
        SegmentView {
            timestamp: at,
            from: Side::Client,
            seq: (CLIENT_ISN + 1) as u32,
            ack: (SERVER_ISN + 1) as u32,
            flags: TcpFlags { fin: false, syn: false, psh: false, ack: true },
            payload: Seq::<u8>::empty(),
        },
    ]
}

/// The numbers after the handshake.
pub open spec fn opening_numbers() -> Numbers {
    Numbers { client_seq: (CLIENT_ISN + 1) as u32, server_seq: (SERVER_ISN + 1) as u32 }
}

/// Where the fragment that starts at `offset` ends in a chunk of `len` bytes.
pub open spec fn fragment_end(offset: int, len: int) -> int {
    if len - offset > MAX_PAYLOAD {
        offset + MAX_PAYLOAD
    } else {
        len
    }
}

/// The segments that carry the bytes of `item` from `offset` on: each at
/// most `MAX_PAYLOAD` bytes, all with ACK, the last one with PSH, each
/// numbered after the bytes before it.
pub open spec fn fragments(item: ItemView, seq: u32, ack: u32, offset: int) -> Seq<SegmentView>
    decreases item.bytes.len() - offset,
{
    if 0 <= offset < item.bytes.len() {
        let end = fragment_end(offset, item.bytes.len() as int);
        seq![
            SegmentView {
                timestamp: item.timestamp,
                from: item.side,
                seq,
                ack,
                flags: TcpFlags { fin: false, syn: false, psh: end == item.bytes.len(), ack: true },
                payload: item.bytes.subrange(offset, end),
            },
        ] + fragments(item, advance(seq, end - offset), ack, end)
    } else {
        Seq::<SegmentView>::empty()
    }
}

/// The numbers after the handshake and all of `items`.
pub open spec fn numbers_after(items: Seq<ItemView>) -> Numbers
    decreases items.len(),
{
    if items.len() == 0 {
        opening_numbers()
    } else {
        after_sending(
            numbers_after(items.drop_last()),
            items.last().side,
            items.last().bytes.len() as int,
        )
    }
}

/// The data segments of `items`, in order: each item is cut into
/// fragments, sent with its side's sequence number and acknowledging
/// everything the other side has sent.
pub open spec fn data_segments(items: Seq<ItemView>) -> Seq<SegmentView>
    decreases items.len(),
{
    if items.len() == 0 {
        Seq::<SegmentView>::empty()
    } else {
        let before = numbers_after(items.drop_last());
        let item = items.last();
        data_segments(items.drop_last()) + fragments(
            item,
            seq_of(before, item.side),
            seq_of(before, item.side.peer()),
            0,
        )
    }
}

/// The side of the last item that carries bytes, if any item does.
pub open spec fn last_data_side(items: Seq<ItemView>) -> Option<Side>
    decreases items.len(),
{
    if items.len() == 0 {
        None
    } else if items.last().bytes.len() > 0 {
        Some(items.last().side)
    } else {
        last_data_side(items.drop_last())
    }
}

/// The side that closes the conversation: the one that sent the last data
/// segment; where no item carries bytes, the side of the last item.
pub open spec fn closing_side(items: Seq<ItemView>) -> Side
    recommends
        items.len() > 0,
{
    match last_data_side(items) {
        Some(side) => side,
        None => items.last().side,
    }
}

/// The segment that closes the conversation: FIN and ACK from the side
/// that sent the last data segment, at the time of the last item.
pub open spec fn closing_segment(items: Seq<ItemView>) -> SegmentView
    recommends
        items.len() > 0,
{
    let n = numbers_after(items);
    let side = closing_side(items);
    SegmentView {
        timestamp: items.last().timestamp,
        from: side,
        seq: seq_of(n, side),
        ack: seq_of(n, side.peer()),
        flags: TcpFlags { fin: true, syn: false, psh: false, ack: true },
        payload: Seq::<u8>::empty(),
    }
}

/// The whole conversation for `items`: the handshake at the time of the
/// first item, the data segments, and the closing segment.
pub open spec fn conversation(items: Seq<ItemView>) -> Seq<SegmentView>
    recommends
        items.len() > 0,
{
    handshake(items[0].timestamp) + data_segments(items) + seq![closing_segment(items)]
}

/// Moving a sequence number on twice is moving it on by the sum.
pub proof fn lemma_advance_twice(seq: u32, a: int, b: int)
    requires
        0 <= a,
        0 <= b,
    ensures
        advance(advance(seq, a), b) == advance(seq, a + b),
{
}

/// A sequence number moved on by `len` bytes, wrapping at 32 bits.
pub fn advance_seq(seq: u32, len: usize) -> (next: u32)
    ensures
        next == advance(seq, len as int),
{
    let low: u64 = (len as u64) % 0x1_0000_0000u64;
    ((seq as u64 + low) % 0x1_0000_0000u64) as u32
}

/// A segment without payload.
fn empty_segment(at: Timestamp, from: Side, seq: u32, ack: u32, flags: TcpFlags) -> (s: Segment)
    ensures
        s@ == (SegmentView {
            timestamp: at,
            from,
            seq,
            ack,
            flags,
            payload: Seq::<u8>::empty(),
        }),
{
    Segment { timestamp: at, from, seq, ack, flags, payload: Vec::new() }
}

/// Appends the three segments of the handshake at time `at`.
pub fn write_tcp_handshake(out: &mut Vec<Segment>, at: Timestamp)
    ensures
        segments_view(final(out)@) == segments_view(old(out)@) + handshake(at),
{
    let ghost before = segments_view(out@);
    out.push(
        empty_segment(
            at,
            Side::Client,
            CLIENT_ISN,
            0,
            TcpFlags { fin: false, syn: true, psh: false, ack: false },
        ),
    );
    out.push(
        empty_segment(
            at,
            Side::Server,
            SERVER_ISN,
            CLIENT_ISN + 1,
            TcpFlags { fin: false, syn: true, psh: false, ack: true },
        ),
    );
    out.push(
        empty_segment(
            at,
            Side::Client,
            CLIENT_ISN + 1,
            SERVER_ISN + 1,
            TcpFlags { fin: false, syn: false, psh: false, ack: true },
        ),
    );
    assert(segments_view(out@) =~= before + handshake(at));
}

/// Appends the fragments of one item, sent with sequence number `seq` and
/// acknowledging `ack`, and gives the sender's next sequence number.
pub fn write_fragments(out: &mut Vec<Segment>, item: &FlowItem<'_>, seq: u32, ack: u32) -> (next:
    u32)
    ensures
        segments_view(final(out)@) == segments_view(old(out)@) + fragments(item@, seq, ack, 0),
        next == advance(seq, item@.bytes.len() as int),
{
    let bytes = item.bytes.as_slice();
    let len = bytes.len();
    let ghost before = segments_view(out@);
    let mut offset: usize = 0;
    let mut cur: u32 = seq;
    assert(segments_view(out@) + fragments(item@, cur, ack, 0) =~= before + fragments(
        item@,
        seq,
        ack,
        0,
    ));
    while offset < len
        invariant
            offset <= len,
            len == item@.bytes.len(),
            bytes@ == item@.bytes,
            cur == advance(seq, offset as int),
            segments_view(out@) + fragments(item@, cur, ack, offset as int) == before + fragments(
                item@,
                seq,
                ack,
                0,
            ),
        decreases len - offset,
    {
        let end = if len - offset > MAX_PAYLOAD {
            offset + MAX_PAYLOAD
        } else {
            len
        };
        let payload = copy_bytes(vstd::slice::slice_subrange(bytes, offset, end));
        let ghost prev = segments_view(out@);
        let ghost rest = fragments(item@, cur, ack, offset as int);
        let segment = Segment {
            timestamp: item.timestamp,
            from: item.side,
            seq: cur,
            ack,
            flags: TcpFlags { fin: false, syn: false, psh: end == len, ack: true },
            payload,
        };
        assert(segment@ == rest[0]);
        out.push(segment);
        let next = advance_seq(cur, end - offset);
        proof {
            lemma_advance_twice(seq, offset as int, end - offset);
            assert(segments_view(out@) =~= prev.push(rest[0]));
            assert(rest =~= seq![rest[0]] + fragments(item@, next, ack, end as int));
            assert(segments_view(out@) + fragments(item@, next, ack, end as int) =~= prev + rest);
        }
        cur = next;
        offset = end;
    }
    assert(segments_view(out@) =~= before + fragments(item@, seq, ack, 0));
    cur
}

/// The conversation for `items`, which must hold at least one item.
pub fn synthesize(items: &Vec<FlowItem<'_>>) -> (r: Result<Vec<Segment>, DumpError>)
    ensures
        match r {
            Ok(segments) => items@.len() > 0 && segments_view(segments@) == conversation(
                items_view(items@),
            ),
            Err(e) => e == DumpError::NoChunks && items@.len() == 0,
        },
{
    if items.len() == 0 {
        return Err(DumpError::NoChunks);
    }
    let ghost all = items_view(items@);
    let mut out: Vec<Segment> = Vec::new();
    write_tcp_handshake(&mut out, items[0].timestamp);
    let mut client_seq: u32 = CLIENT_ISN + 1;
    let mut server_seq: u32 = SERVER_ISN + 1;
    let mut last_data: Option<Side> = None;
    let mut i: usize = 0;
    assert(all.subrange(0, 0) =~= Seq::<ItemView>::empty());
    assert(segments_view(out@) =~= handshake(all[0].timestamp) + data_segments(
        all.subrange(0, 0),
    ));
    while i < items.len()
        invariant
            i <= items@.len(),
            items@.len() > 0,
            all == items_view(items@),
            segments_view(out@) == handshake(all[0].timestamp) + data_segments(
                all.subrange(0, i as int),
            ),
            numbers_after(all.subrange(0, i as int)) == (Numbers { client_seq, server_seq }),
            last_data == last_data_side(all.subrange(0, i as int)),
        decreases items@.len() - i,
    {
        let item = &items[i];
        let ghost prev = segments_view(out@);
        proof {
            let next = all.subrange(0, i + 1);
            assert(next.drop_last() =~= all.subrange(0, i as int));
            assert(next.last() == item@);
        }
        match item.side {
            Side::Client => {
                client_seq = write_fragments(&mut out, item, client_seq, server_seq);
            },
            Side::Server => {
                server_seq = write_fragments(&mut out, item, server_seq, client_seq);
            },
        }
        if item.bytes.as_slice().len() > 0 {
            last_data = Some(item.side);
        }
        assert(segments_view(out@) =~= handshake(all[0].timestamp) + data_segments(
            all.subrange(0, i + 1),
        ));
        i += 1;
    }
    assert(all.subrange(0, items@.len() as int) =~= all);
    let last = &items[items.len() - 1];
    let ghost prev = segments_view(out@);
    let side = match last_data {
        Some(side) => side,
        None => last.side,
    };
    let closing = match side {
        Side::Client => empty_segment(
            last.timestamp,
            Side::Client,
            client_seq,
            server_seq,
            TcpFlags { fin: true, syn: false, psh: false, ack: true },
        ),
        Side::Server => empty_segment(
            last.timestamp,
            Side::Server,
            server_seq,
            client_seq,
            TcpFlags { fin: true, syn: false, psh: false, ack: true },
        ),
    };
    assert(closing@ == closing_segment(all));
    out.push(closing);
    assert(segments_view(out@) =~= prev.push(closing_segment(all)));
    assert(segments_view(out@) =~= conversation(all));
    Ok(out)
}

/// The addresses and fixed fields of the frames of one direction.
#[derive(Clone, Copy, Debug)]
pub struct Route {
    pub src_mac: [u8; 6],
    pub dst_mac: [u8; 6],
    pub src_ip: [u8; 4],
    pub dst_ip: [u8; 4],
    pub src_port: u16,
    pub dst_port: u16,
    pub ttl: u8,
    pub window: u16,
}

/// One synthesised frame and the time it is given in the capture.
#[derive(Debug)]
pub struct Packet {
    pub timestamp: Timestamp,
    pub data: Vec<u8>,
}

/// The IPv4 ends of a flow.
#[derive(Clone, Copy, Debug)]
pub struct Ends {
    pub client_ip: [u8; 4],
    pub client_port: u16,
    pub server_ip: [u8; 4],
    pub server_port: u16,
}

/// The Ethernet frame that the `etherparse` crate builds for a TCP segment
/// over IPv4 with these addresses, header fields and payload, or nothing
/// where it refuses to build one.
pub uninterp spec fn ethernet_frame(
    src_mac: Seq<u8>,
    dst_mac: Seq<u8>,
    src_ip: Seq<u8>,
    dst_ip: Seq<u8>,
    ttl: u8,
    src_port: u16,
    dst_port: u16,
    window: u16,
    seq: u32,
    ack: u32,
    fin: bool,
    syn: bool,
    psh: bool,
    ack_set: bool,
    payload: Seq<u8>,
) -> Option<Seq<u8>>;

/// The Ethernet source address of every synthesised frame.
pub open spec fn source_mac() -> [u8; 6] {
    [
        SOURCE_MAC_BYTE,
        SOURCE_MAC_BYTE,
        SOURCE_MAC_BYTE,
        SOURCE_MAC_BYTE,
        SOURCE_MAC_BYTE,
        SOURCE_MAC_BYTE,
    ]
}

/// The Ethernet destination address of every synthesised frame.
pub open spec fn destination_mac() -> [u8; 6] {
    [
        DESTINATION_MAC_BYTE,
        DESTINATION_MAC_BYTE,
        DESTINATION_MAC_BYTE,
        DESTINATION_MAC_BYTE,
        DESTINATION_MAC_BYTE,
        DESTINATION_MAC_BYTE,
    ]
}

/// The route of the frames that `from` sends: from its own address and
/// port to the other side's. Both directions carry the same pair of
/// Ethernet addresses.
pub open spec fn route_spec(ends: Ends, from: Side) -> Route {
    match from {
        Side::Client => Route {
            src_mac: source_mac(),
            dst_mac: destination_mac(),
            src_ip: ends.client_ip,
            dst_ip: ends.server_ip,
            src_port: ends.client_port,
            dst_port: ends.server_port,
            ttl: TTL,
            window: WINDOW,
        },
        Side::Server => Route {
            src_mac: source_mac(),
            dst_mac: destination_mac(),
            src_ip: ends.server_ip,
            dst_ip: ends.client_ip,
            src_port: ends.server_port,
            dst_port: ends.client_port,
            ttl: TTL,
            window: WINDOW,
        },
    }
}

/// The frame of a segment on a route.
pub open spec fn frame_on(route: Route, segment: SegmentView) -> Option<Seq<u8>> {
    ethernet_frame(
        route.src_mac@,
        route.dst_mac@,
        route.src_ip@,
        route.dst_ip@,
        route.ttl,
        route.src_port,
        route.dst_port,
        route.window,
        segment.seq,
        segment.ack,
        segment.flags.fin,
        segment.flags.syn,
        segment.flags.psh,
        segment.flags.ack,
        segment.payload,
    )
}

/// The frame of a segment of a flow between `ends`.
pub open spec fn frame_of(ends: Ends, segment: SegmentView) -> Option<Seq<u8>> {
    frame_on(route_spec(ends, segment.from), segment)
}

/// The packets are the frames of the segments, one for one, each at its
/// segment's time.
pub open spec fn packets_of(packets: Seq<Packet>, segments: Seq<SegmentView>, ends: Ends) -> bool {
    &&& packets.len() == segments.len()
    &&& forall|i: int|
        0 <= i < packets.len() ==> frame_of(ends, segments[i]) == Some(
            (#[trigger] packets[i]).data@,
        ) && packets[i].timestamp == segments[i].timestamp
}

/// Some segment has no frame.
pub open spec fn unbuildable(segments: Seq<SegmentView>, ends: Ends) -> bool {
    exists|i: int| 0 <= i < segments.len() && frame_of(ends, #[trigger] segments[i]) is None
}

/// Builds the frame of one segment with `etherparse::PacketBuilder`, through
/// `ethernet2`, `ipv4`, `tcp_header` and `write`: an Ethernet II header,
/// an IPv4 header and a TCP header with the segment's numbers and control
/// bits, then the payload. The contract names the bytes and does not say
/// what they are. The crate refuses only a payload too long for the
/// length fields of IPv4 and TCP, and writing into a vector cannot fail,
/// so a payload of at most `MAX_PAYLOAD` bytes always gives a frame.
#[verifier::external_body]
fn write_tcp_packet(route: &Route, segment: &Segment) -> (r: Option<Vec<u8>>)
    ensures
        segment.payload@.len() <= MAX_PAYLOAD ==> r is Some,
        match r {
            Some(frame) => ethernet_frame(
                route.src_mac@,
                route.dst_mac@,
                route.src_ip@,
                route.dst_ip@,
                route.ttl,
                route.src_port,
                route.dst_port,
                route.window,
                segment.seq,
                segment.ack,
                segment.flags.fin,
                segment.flags.syn,
                segment.flags.psh,
                segment.flags.ack,
                segment.payload@,
            ) == Some(frame@),
            None => ethernet_frame(
                route.src_mac@,
                route.dst_mac@,
                route.src_ip@,
                route.dst_ip@,
                route.ttl,
                route.src_port,
                route.dst_port,
                route.window,
                segment.seq,
                segment.ack,
                segment.flags.fin,
                segment.flags.syn,
                segment.flags.psh,
                segment.flags.ack,
                segment.payload@,
            ) is None,
        },
{
    let mut tcp =
        etherparse::TcpHeader::new(route.src_port, route.dst_port, segment.seq, route.window);
    tcp.acknowledgment_number = segment.ack;
    tcp.fin = segment.flags.fin;
    tcp.syn = segment.flags.syn;
    tcp.psh = segment.flags.psh;
    tcp.ack = segment.flags.ack;
    let builder = etherparse::PacketBuilder::ethernet2(route.src_mac, route.dst_mac)
        .ipv4(route.src_ip, route.dst_ip, route.ttl)
        .tcp_header(tcp);
    let mut frame = Vec::new();
    builder.write(&mut frame, &segment.payload).ok().map(|_| frame)
}

/// The route of the frames that `from` sends.
pub fn route_of(ends: &Ends, from: Side) -> (route: Route)
    ensures
        route == route_spec(*ends, from),
{
    let src_mac = [
        SOURCE_MAC_BYTE,
        SOURCE_MAC_BYTE,
        SOURCE_MAC_BYTE,
        SOURCE_MAC_BYTE,
        SOURCE_MAC_BYTE,
        SOURCE_MAC_BYTE,
    ];
    let dst_mac = [
        DESTINATION_MAC_BYTE,
        DESTINATION_MAC_BYTE,
        DESTINATION_MAC_BYTE,
        DESTINATION_MAC_BYTE,
        DESTINATION_MAC_BYTE,
        DESTINATION_MAC_BYTE,
    ];
    match from {
        Side::Client => Route {
            src_mac,
            dst_mac,
            src_ip: ends.client_ip,
            dst_ip: ends.server_ip,
            src_port: ends.client_port,
            dst_port: ends.server_port,
            ttl: TTL,
            window: WINDOW,
        },
        Side::Server => Route {
            src_mac,
            dst_mac,
            src_ip: ends.server_ip,
            dst_ip: ends.client_ip,
            src_port: ends.server_port,
            dst_port: ends.client_port,
            ttl: TTL,
            window: WINDOW,
        },
    }
}

/// No segment carries more than `MAX_PAYLOAD` bytes.
pub open spec fn all_fit(segments: Seq<SegmentView>) -> bool {
    forall|i: int| 0 <= i < segments.len() ==> (#[trigger] segments[i]).payload.len() <= MAX_PAYLOAD
}

/// The frames of `segments` between `ends`, or a failure if some frame
/// cannot be built, which does not happen where no segment carries more
/// than `MAX_PAYLOAD` bytes.
pub fn render(segments: &Vec<Segment>, ends: &Ends) -> (r: Result<Vec<Packet>, DumpError>)
    ensures
        match r {
            Ok(packets) => packets_of(packets@, segments_view(segments@), *ends),
            Err(e) => e == DumpError::Frame && unbuildable(segments_view(segments@), *ends),
        },
        all_fit(segments_view(segments@)) ==> r is Ok,
{
    let ghost views = segments_view(segments@);
    let mut packets: Vec<Packet> = Vec::new();
    let mut i: usize = 0;
    while i < segments.len()
        invariant
            i <= segments@.len(),
            views == segments_view(segments@),
            packets@.len() == i,
            forall|k: int|
                0 <= k < i ==> frame_of(*ends, views[k]) == Some((#[trigger] packets@[k]).data@)
                    && packets@[k].timestamp == views[k].timestamp,
        decreases segments@.len() - i,
    {
        let segment = &segments[i];
        let route = route_of(ends, segment.from);
        match write_tcp_packet(&route, segment) {
            Some(data) => {
                assert(frame_of(*ends, views[i as int]) == Some(data@));
                packets.push(Packet { timestamp: segment.timestamp, data });
            },
            None => {
                assert(frame_of(*ends, views[i as int]) is None);
                assert(views[i as int].payload.len() > MAX_PAYLOAD);
                return Err(DumpError::Frame);
            },
        }
        i += 1;
    }
    Ok(packets)
}

/// The IPv4 ends of a flow, if both its ends have IPv4 addresses.
pub open spec fn ends_of(flow: &Flow) -> Option<Ends> {
    match (flow.client_addr_of().ip, flow.server_addr_of().ip) {
        (IpAddress::V4(client_ip), IpAddress::V4(server_ip)) => Some(
            Ends {
                client_ip,
                client_port: flow.client_addr_of().port,
                server_ip,
                server_port: flow.server_addr_of().port,
            },
        ),
        _ => None,
    }
}

/// Every data segment of a replay carries at most `MAX_PAYLOAD` bytes.
pub proof fn lemma_data_segments_fit(items: Seq<ItemView>)
    ensures
        all_fit(data_segments(items)),
    decreases items.len(),
{
    if items.len() > 0 {
        let before = numbers_after(items.drop_last());
        let item = items.last();
        let front = data_segments(items.drop_last());
        let tail = fragments(item, seq_of(before, item.side), seq_of(before, item.side.peer()), 0);
        lemma_data_segments_fit(items.drop_last());
        lemma_fragments_carry_bytes(
            item,
            seq_of(before, item.side),
            seq_of(before, item.side.peer()),
            0,
        );
        let all = data_segments(items);
        assert forall|i: int| 0 <= i < all.len() implies (#[trigger] all[i]).payload.len()
            <= MAX_PAYLOAD by {
            if i < front.len() {
                assert(all[i] == front[i]);
            } else {
                assert(all[i] == tail[i - front.len()]);
            }
        }
    }
}

/// Every segment of a conversation carries at most `MAX_PAYLOAD` bytes.
pub proof fn lemma_conversation_fits(items: Seq<ItemView>)
    requires
        items.len() > 0,
    ensures
        all_fit(conversation(items)),
{
    lemma_data_segments_fit(items);
    let opening = handshake(items[0].timestamp);
    let data = data_segments(items);
    let all = conversation(items);
    assert forall|i: int| 0 <= i < all.len() implies (#[trigger] all[i]).payload.len()
        <= MAX_PAYLOAD by {
        if i < 3 {
            assert(all[i] == opening[i]);
        } else if i < 3 + data.len() {
            assert(all[i] == data[i - 3]);
        } else {
            assert(all[i] == closing_segment(items));
        }
    }
}

/// The packets of the TCP conversation that replays a finished flow. Both
/// ends must have IPv4 addresses and the flow must have recorded
/// something; then the replay succeeds.
pub fn write_tcp_flow(flow: &Flow) -> (r: Result<Vec<Packet>, DumpError>)
    requires
        flow matches Flow::Raw(raw) ==> raw.wf(),
    ensures
        match r {
            Ok(packets) => ends_of(flow) is Some && flow_items(flow).len() > 0 && packets_of(
                packets@,
                conversation(flow_items(flow)),
                ends_of(flow)->0,
            ),
            Err(DumpError::OnlyIpv4) => ends_of(flow) is None,
            Err(DumpError::NoChunks) => ends_of(flow) is Some && flow_items(flow).len() == 0,
            Err(DumpError::Frame) => false,
        },
{
    let client = flow.get_client_addr();
    let server = flow.get_server_addr();
    let client_ip = match client.ip {
        IpAddress::V4(ip) => ip,
        IpAddress::V6(_) => {
            return Err(DumpError::OnlyIpv4);
        },
    };
    let server_ip = match server.ip {
        IpAddress::V4(ip) => ip,
        IpAddress::V6(_) => {
            return Err(DumpError::OnlyIpv4);
        },
    };
    let ends = Ends { client_ip, client_port: client.port, server_ip, server_port: server.port };
    let items = FlowIterator::collect(flow);
    match synthesize(&items) {
        Ok(segments) => {
            proof {
                lemma_conversation_fits(flow_items(flow));
            }
            render(&segments, &ends)
        },
        Err(e) => Err(e),
    }
}

/// The text that `strfmt::strfmt` makes of a template and the variables
/// given by a list of names and values, a later value for a name
/// replacing an earlier one; nothing where it reports an error.
pub uninterp spec fn formatted(template: Seq<char>, vars: Seq<(Seq<char>, Seq<char>)>) -> Option<
    Seq<char>,
>;

/// A list of variables as values.
pub open spec fn vars_view(vars: Seq<(String, String)>) -> Seq<(Seq<char>, Seq<char>)> {
    vars.map_values(|entry: (String, String)| (entry.0@, entry.1@))
}

/// The most digits that a width in a format specification may have,
/// zeros in front not counted.
pub const MAX_DIGIT_RUN: usize = 4;

/// Where the reading of a template stands. A field is what stands between
/// an opening brace and the closing brace that ends it; two opening braces
/// in a row, and two closing braces in a row, stand for one brace of text.
/// Within a field, what follows the first colon is its format
/// specification. There a number gives the width to pad to, until a dot
/// begins the precision, which pads nothing. A dot begins the precision
/// unless it is the first byte of the specification and an alignment sign
/// follows, where it is the padding character.
#[derive(Clone, Copy, Debug, PartialEq, Eq, Structural)]
pub struct Scan {
    /// A field is open.
    pub reading: bool,
    /// The byte before was the brace that opened the field.
    pub opened: bool,
    /// A closing brace outside a field waits for its second.
    pub closing: bool,
    /// The open field has had its colon.
    pub in_spec: bool,
    /// How many bytes of the format specification were read, counted no
    /// further than 2.
    pub spec_len: usize,
    /// The first byte of the format specification is a dot.
    pub dot_first: bool,
    /// The precision of the format specification has begun.
    pub precision: bool,
    /// How many digits end the width read so far, zeros in front not
    /// counted, counted no further than one past `MAX_DIGIT_RUN`.
    pub run: usize,
    /// A width had more than `MAX_DIGIT_RUN` digits.
    pub wide: bool,
}

/// The byte is a decimal digit.
pub open spec fn is_digit(b: u8) -> bool {
    48 <= b <= 57
}

/// The byte is one of the alignment signs `<`, `=`, `>` and `^`.
pub open spec fn is_align(b: u8) -> bool {
    b == 60 || b == 61 || b == 62 || b == 94
}

/// The reading before the first byte.
pub open spec fn scan_start() -> Scan {
    Scan {
        reading: false,
        opened: false,
        closing: false,
        in_spec: false,
        spec_len: 0,
        dot_first: false,
        precision: false,
        run: 0,
        wide: false,
    }
}

/// The reading with no field open.
pub open spec fn field_closed(s: Scan) -> Scan {
    Scan {
        reading: false,
        opened: false,
        in_spec: false,
        spec_len: 0,
        dot_first: false,
        precision: false,
        run: 0,
        ..s
    }
}

/// The reading after a digit of a width.
pub open spec fn width_digit(s: Scan, b: u8) -> Scan {
    if b == 48 && s.run == 0 {
        s
    } else if s.run >= MAX_DIGIT_RUN {
        Scan { run: (MAX_DIGIT_RUN + 1) as usize, wide: true, ..s }
    } else {
        Scan { run: (s.run + 1) as usize, ..s }
    }
}

/// The reading after one more byte of a format specification.
pub open spec fn spec_step(s: Scan, b: u8) -> Scan {
    let t = Scan {
        opened: false,
        spec_len: if s.spec_len >= 2 {
            2
        } else {
            (s.spec_len + 1) as usize
        },
        ..s
    };
    if s.precision {
        Scan { run: 0, ..t }
    } else if s.spec_len == 1 && s.dot_first {
        if is_align(b) {
            Scan { run: 0, ..t }
        } else {
            Scan { precision: true, run: 0, ..t }
        }
    } else if b == 46 {
        if s.spec_len == 0 {
            Scan { dot_first: true, run: 0, ..t }
        } else {
            Scan { precision: true, run: 0, ..t }
        }
    } else if is_digit(b) {
        width_digit(t, b)
    } else {
        Scan { run: 0, ..t }
    }
}

/// The reading after one more byte.
pub open spec fn scan_step(s: Scan, b: u8) -> Scan {
    if b == 123 {
        if s.reading && s.opened {
            field_closed(s)
        } else if !s.reading {
            Scan { reading: true, opened: true, ..field_closed(s) }
        } else {
            Scan { opened: false, run: 0, ..s }
        }
    } else if b == 125 {
        if !s.reading && !s.closing {
            Scan { closing: true, opened: false, run: 0, ..s }
        } else if s.closing {
            Scan { closing: false, opened: false, run: 0, ..s }
        } else {
            field_closed(s)
        }
    } else if s.reading && !s.in_spec && b == 58 {
        Scan { reading: true, in_spec: true, ..field_closed(s) }
    } else if s.reading && s.in_spec {
        spec_step(s, b)
    } else {
        Scan { opened: false, run: 0, ..s }
    }
}

/// The reading after all the bytes.
pub open spec fn scan(bytes: Seq<u8>) -> Scan
    decreases bytes.len(),
{
    if bytes.len() == 0 {
        scan_start()
    } else {
        scan_step(scan(bytes.drop_last()), bytes.last())
    }
}

/// The template asks for no wide padding: no width in the format
/// specification of a field has more than `MAX_DIGIT_RUN` digits. Digits
/// elsewhere do not count.
pub open spec fn plain_template(bytes: Seq<u8>) -> bool {
    !scan(bytes).wide
}

/// Fills a template with `strfmt::strfmt`, handing it the variables as a
/// hash map collected from the list. In the format specification of a
/// field a template may ask for padding of any width, which the crate
/// would write out however long, so templates that ask for a width of
/// more than `MAX_DIGIT_RUN` digits are left out.
#[verifier::external_body]
fn strfmt(template: &str, vars: &Vec<(String, String)>) -> (r: Option<String>)
    requires
        plain_template(vstd::utf8::encode_utf8(template@)),
    ensures
        match r {
            Some(text) => formatted(template@, vars_view(vars@)) == Some(text@),
            None => formatted(template@, vars_view(vars@)) is None,
        },
{
    let map: std::collections::HashMap<String, String> = vars.iter().cloned().collect();
    strfmt::strfmt(template, &map).ok()
}

/// The reading with no field open.
fn close_field(s: Scan) -> (next: Scan)
    ensures
        next == field_closed(s),
{
    Scan {
        reading: false,
        opened: false,
        in_spec: false,
        spec_len: 0,
        dot_first: false,
        precision: false,
        run: 0,
        ..s
    }
}

/// The reading after one more byte of a format specification.
fn spec_byte(s: Scan, b: u8) -> (next: Scan)
    ensures
        next == spec_step(s, b),
{
    let spec_len: usize = if s.spec_len >= 2 {
        2
    } else {
        s.spec_len + 1
    };
    let t = Scan { opened: false, spec_len, ..s };
    if s.precision {
        Scan { run: 0, ..t }
    } else if s.spec_len == 1 && s.dot_first {
        if b == 60 || b == 61 || b == 62 || b == 94 {
            Scan { run: 0, ..t }
        } else {
            Scan { precision: true, run: 0, ..t }
        }
    } else if b == 46 {
        if s.spec_len == 0 {
            Scan { dot_first: true, run: 0, ..t }
        } else {
            Scan { precision: true, run: 0, ..t }
        }
    } else if 48 <= b && b <= 57 {
        if b == 48 && t.run == 0 {
            t
        } else if t.run >= MAX_DIGIT_RUN {
            Scan { run: MAX_DIGIT_RUN + 1, wide: true, ..t }
        } else {
            Scan { run: t.run + 1, ..t }
        }
    } else {
        Scan { run: 0, ..t }
    }
}

/// The reading after one more byte.
pub fn scan_byte(s: Scan, b: u8) -> (next: Scan)
    ensures
        next == scan_step(s, b),
{
    if b == 123 {
        if s.reading && s.opened {
            close_field(s)
        } else if !s.reading {
            Scan { reading: true, opened: true, ..close_field(s) }
        } else {
            Scan { opened: false, run: 0, ..s }
        }
    } else if b == 125 {
        if !s.reading && !s.closing {
            Scan { closing: true, opened: false, run: 0, ..s }
        } else if s.closing {
            Scan { closing: false, opened: false, run: 0, ..s }
        } else {
            close_field(s)
        }
    } else if s.reading && !s.in_spec && b == 58 {
        Scan { reading: true, in_spec: true, ..close_field(s) }
    } else if s.reading && s.in_spec {
        spec_byte(s, b)
    } else {
        Scan { opened: false, run: 0, ..s }
    }
}

/// Whether a template asks for no wide padding.
pub fn is_plain_template(template: &str) -> (r: bool)
    ensures
        r == plain_template(vstd::utf8::encode_utf8(template@)),
{
    let bytes = template.as_bytes();
    let mut state = Scan {
        reading: false,
        opened: false,
        closing: false,
        in_spec: false,
        spec_len: 0,
        dot_first: false,
        precision: false,
        run: 0,
        wide: false,
    };
    let mut i: usize = 0;
    assert(bytes@.subrange(0, 0) =~= Seq::<u8>::empty());
    while i < bytes.len()
        invariant
            i <= bytes@.len(),
            bytes@ == vstd::utf8::encode_utf8(template@),
            state == scan(bytes@.subrange(0, i as int)),
        decreases bytes@.len() - i,
    {
        proof {
            let next = bytes@.subrange(0, i + 1);
            assert(next.drop_last() =~= bytes@.subrange(0, i as int));
            assert(next.last() == bytes@[i as int]);
        }
        state = scan_byte(state, bytes[i]);
        i += 1;
    }
    assert(bytes@.subrange(0, bytes@.len() as int) =~= bytes@);
    !state.wide
}

/// What the dumper does at the top of its receive loop.
#[derive(Clone, Copy, Debug, PartialEq, Eq, Structural)]
pub enum WindowStep {
    /// Close the window: the interval is over or the window holds more
    /// packets than the limit.
    Rotate,
    /// Wait for the next flow, at most for what is left of the interval.
    Receive(Span),
}

/// What becomes of a closed window.
pub enum WindowEnd {
    /// Nothing was written: the file is thrown away.
    Discard,
    /// The file is kept under this name, inside the dump directory.
    Save(String),
    /// The file name could not be made from the template.
    BadFormat,
    /// The template asks for padding too wide for a file name; it is not filled.
    TooWide,
}

/// The settings of the capture writer.
pub struct Dumper {
    pub path: String,
    pub format: String,
    pub interval: Span,
    pub max_packets: usize,
    pub format_map: Vec<(String, String)>,
}

/// The variables that every file name of a service can use: its name and
/// the texts of both addresses and ports, the latter also under the names
/// that start with `from` and `to`.
pub open spec fn service_vars(
    name: Seq<char>,
    client_ip: Seq<char>,
    client_port: u16,
    server_ip: Seq<char>,
    server_port: u16,
) -> Seq<(Seq<char>, Seq<char>)> {
    seq![
        ("service"@, name),
        ("client_ip"@, client_ip),
        ("client_port"@, chars_of(decimal(client_port as nat))),
        ("server_ip"@, server_ip),
        ("server_port"@, chars_of(decimal(server_port as nat))),
        ("from_ip"@, client_ip),
        ("from_port"@, chars_of(decimal(client_port as nat))),
        ("to_ip"@, server_ip),
        ("to_port"@, chars_of(decimal(server_port as nat))),
    ]
}

/// The variables of a file name written at `end_secs` seconds since the epoch.
pub open spec fn file_vars(vars: Seq<(Seq<char>, Seq<char>)>, end_secs: i64) -> Seq<
    (Seq<char>, Seq<char>),
> {
    vars.push(("timestamp"@, chars_of(signed_decimal(end_secs as int))))
}

/// The step at the top of the receive loop.
pub open spec fn window_step(interval: Span, max_packets: usize, elapsed: Span, n_packets: usize)
    -> WindowStep {
    if elapsed.total_nanos() >= interval.total_nanos() || n_packets > max_packets {
        WindowStep::Rotate
    } else {
        WindowStep::Receive(
            Span {
                secs: ((interval.total_nanos() - elapsed.total_nanos()) / 1_000_000_000) as u64,
                nanos: ((interval.total_nanos() - elapsed.total_nanos()) % 1_000_000_000) as u32,
            },
        )
    }
}

/// The packet count of a window after `written` more packets, held at the
/// largest number that can be counted.
pub open spec fn counted(n_packets: usize, written: usize) -> usize {
    if n_packets + written > usize::MAX {
        usize::MAX
    } else {
        (n_packets + written) as usize
    }
}

/// What becomes of a window that closes at `end_secs` with `n_packets`
/// packets, for a template and the variables of the service: an empty
/// window is discarded; a template that asks for wide padding is not
/// filled; one that cannot be filled gives no name; otherwise the file is
/// saved under the template filled with the variables and the closing time.
pub open spec fn window_closed(
    template: Seq<char>,
    vars: Seq<(Seq<char>, Seq<char>)>,
    n_packets: usize,
    end_secs: i64,
    end: WindowEnd,
) -> bool {
    if n_packets == 0 {
        end is Discard
    } else if !plain_template(vstd::utf8::encode_utf8(template)) {
        end is TooWide
    } else {
        match formatted(template, file_vars(vars, end_secs)) {
            Some(name) => end matches WindowEnd::Save(text) && text@ == name,
            None => end is BadFormat,
        }
    }
}

impl Dumper {
    /// The directory that `config` names for the capture files.
    pub fn dump_path(config: &Config) -> (r: Result<String, ConfigError>)
        ensures
            match r {
                Ok(path) => config.dump_path == Some(path),
                Err(e) => e == ConfigError::DumpPathRequired && config.dump_path is None,
            },
    {
        match &config.dump_path {
            Some(path) => Ok(path.clone()),
            None => Err(ConfigError::DumpPathRequired),
        }
    }

    /// The capture writer of a service. The configuration must name the
    /// directory, the interval and the file name template, in that order of
    /// complaint. The texts of the service's addresses are given by the caller.
    pub fn start(service: &Service, config: &Config, client_ip: String, server_ip: String) -> (r:
        Result<Dumper, ConfigError>)
        ensures
            match r {
                Ok(dumper) => {
                    &&& config.dump_path == Some(dumper.path)
                    &&& config.dump_interval == Some(dumper.interval)
                    &&& config.dump_format == Some(dumper.format)
                    &&& dumper.max_packets == config.dump_max_packets
                    &&& vars_view(dumper.format_map@) == service_vars(
                        service.name@,
                        client_ip@,
                        service.client_addr.port,
                        server_ip@,
                        service.server_addr.port,
                    )
                },
                Err(ConfigError::DumpPathRequired) => config.dump_path is None,
                Err(ConfigError::DumpIntervalRequired) => config.dump_path is Some
                    && config.dump_interval is None,
                Err(ConfigError::DumpFormatRequired) => config.dump_path is Some
                    && config.dump_interval is Some && config.dump_format is None,
                Err(_) => false,
            },
    {
        let path = match &config.dump_path {
            Some(path) => path.clone(),
            None => {
                return Err(ConfigError::DumpPathRequired);
            },
        };
        let interval = match config.dump_interval {
            Some(interval) => interval,
            None => {
                return Err(ConfigError::DumpIntervalRequired);
            },
        };
        let format = match &config.dump_format {
            Some(format) => format.clone(),
            None => {
                return Err(ConfigError::DumpFormatRequired);
            },
        };
        let mut format_map: Vec<(String, String)> = Vec::new();
        format_map.push(("service".to_owned(), service.name.clone()));
        format_map.push(("client_ip".to_owned(), client_ip.clone()));
        format_map.push(
            ("client_port".to_owned(), decimal_text(service.client_addr.port as u64)),
        );
        format_map.push(("server_ip".to_owned(), server_ip.clone()));
        format_map.push(
            ("server_port".to_owned(), decimal_text(service.server_addr.port as u64)),
        );
        format_map.push(("from_ip".to_owned(), client_ip));
        format_map.push(("from_port".to_owned(), decimal_text(service.client_addr.port as u64)));
        format_map.push(("to_ip".to_owned(), server_ip));
        format_map.push(("to_port".to_owned(), decimal_text(service.server_addr.port as u64)));
        assert(vars_view(format_map@) =~= service_vars(
            service.name@,
            client_ip@,
            service.client_addr.port,
            server_ip@,
            service.server_addr.port,
        ));
        Ok(Dumper { path, format, interval, max_packets: config.dump_max_packets, format_map })
    }

    /// What to do at the top of the receive loop, `elapsed` after the
    /// window opened with `n_packets` packets written: rotate when the
    /// interval is over or the count is above the limit, whichever comes
    /// first; otherwise wait for a flow for the rest of the interval.
    pub fn poll(&self, elapsed: Span, n_packets: usize) -> (step: WindowStep)
        requires
            self.interval.wf(),
            elapsed.wf(),
        ensures
            step == window_step(self.interval, self.max_packets, elapsed, n_packets),
            step matches WindowStep::Receive(left) ==> left.wf() && left.total_nanos()
                == self.interval.total_nanos() - elapsed.total_nanos(),
    {
        if elapsed.at_least(&self.interval) || n_packets > self.max_packets {
            WindowStep::Rotate
        } else {
            let left = self.interval.minus(&elapsed);
            assert(left.total_nanos() == left.secs * 1_000_000_000 + left.nanos);
            WindowStep::Receive(left)
        }
    }

    /// The packet count of the window after a flow was written as
    /// `written` packets.
    pub fn count(n_packets: usize, written: usize) -> (n: usize)
        ensures
            n == counted(n_packets, written),
    {
        match n_packets.checked_add(written) {
            Some(n) => n,
            None => usize::MAX,
        }
    }

    /// The variables of a file name written at `end_secs`.
    pub fn vars_at(&self, end_secs: i64) -> (vars: Vec<(String, String)>)
        ensures
            vars_view(vars@) == file_vars(vars_view(self.format_map@), end_secs),
    {
        let mut vars: Vec<(String, String)> = Vec::new();
        let mut i: usize = 0;
        while i < self.format_map.len()
            invariant
                i <= self.format_map@.len(),
                vars@.len() == i,
                forall|k: int|
                    0 <= k < i ==> (#[trigger] vars@[k]).0@ == self.format_map@[k].0@
                        && vars@[k].1@ == self.format_map@[k].1@,
            decreases self.format_map@.len() - i,
        {
            let entry = &self.format_map[i];
            vars.push((entry.0.clone(), entry.1.clone()));
            i += 1;
        }
        vars.push(("timestamp".to_owned(), signed_decimal_text(end_secs)));
        assert(vars_view(vars@) =~= file_vars(vars_view(self.format_map@), end_secs));
        vars
    }

    /// What becomes of a window that closes at `end_secs` with `n_packets`
    /// packets: an empty one is discarded; otherwise the file name is the
    /// template filled with the service's variables and the closing time.
    /// A template that asks for wide padding is not filled.
    pub fn close_window_at(&self, n_packets: usize, end_secs: i64) -> (end: WindowEnd)
        ensures
            window_closed(self.format@, vars_view(self.format_map@), n_packets, end_secs, end),
    {
        if n_packets == 0 {
            return WindowEnd::Discard;
        }
        if !is_plain_template(self.format.as_str()) {
            return WindowEnd::TooWide;
        }
        let vars = self.vars_at(end_secs);
        match strfmt(self.format.as_str(), &vars) {
            Some(name) => WindowEnd::Save(name),
            None => WindowEnd::BadFormat,
        }
    }

    /// What becomes of a window that closes now with `n_packets` packets.
    pub fn close_window(&self, n_packets: usize) -> (end: WindowEnd)
        ensures
            exists|end_secs: i64|
                end_secs >= 0 && window_closed(
                    self.format@,
                    vars_view(self.format_map@),
                    n_packets,
                    end_secs,
                    end,
                ),
    {
        let at = now();
        self.close_window_at(n_packets, at.secs)
    }
}

/// The error number of a rename across file systems.
pub const EXDEV: i32 = 18;

/// How a finished capture file gets to its place after the rename failed.
#[derive(Clone, Copy, Debug, PartialEq, Eq, Structural)]
pub enum SaveStep {
    /// Copy the file to its place and remove the temporary one.
    CopyAndRemove,
    /// Give up with the error of the rename.
    Fail,
}

impl DumpError {
    /// The message of the error.
    pub open spec fn text(self) -> Seq<char> {
        match self {
            DumpError::OnlyIpv4 => "Only IPv4 supported"@,
            DumpError::NoChunks => "Malformed flow with no chunks"@,
            DumpError::Frame => "Failed to build packet"@,
        }
    }

    /// The message of the error.
    pub fn message(&self) -> (m: &'static str)
        ensures
            m@ == self.text(),
    {
        match self {
            DumpError::OnlyIpv4 => "Only IPv4 supported",
            DumpError::NoChunks => "Malformed flow with no chunks",
            DumpError::Frame => "Failed to build packet",
        }
    }
}

impl Dumper {
    /// What to do when moving the capture file to its place failed with
    /// this error number, if it had one: a rename across file systems is
    /// made up for by a copy.
    pub fn save_pcap(os_error: Option<i32>) -> (step: SaveStep)
        ensures
            step == (if os_error == Some(EXDEV) {
                SaveStep::CopyAndRemove
            } else {
                SaveStep::Fail
            }),
    {
        match os_error {
            Some(code) => {
                if code == EXDEV {
                    SaveStep::CopyAndRemove
                } else {
                    SaveStep::Fail
                }
            },
            None => SaveStep::Fail,
        }
    }
}

/// The payloads of segments one after the other.
pub open spec fn payloads(segments: Seq<SegmentView>) -> Seq<u8>
    decreases segments.len(),
{
    if segments.len() == 0 {
        Seq::<u8>::empty()
    } else {
        segments[0].payload + payloads(segments.skip(1))
    }
}

/// The fragments of an item carry its bytes from `offset` on, in order
/// and without gap; none is empty or longer than `MAX_PAYLOAD`, all come
/// from the item's side at the item's time, and only the last has PSH.
pub proof fn lemma_fragments_carry_bytes(item: ItemView, seq: u32, ack: u32, offset: int)
    requires
        0 <= offset <= item.bytes.len(),
    ensures
        payloads(fragments(item, seq, ack, offset)) == item.bytes.subrange(
            offset,
            item.bytes.len() as int,
        ),
        forall|i: int|
            0 <= i < fragments(item, seq, ack, offset).len() ==> {
                let f = #[trigger] fragments(item, seq, ack, offset)[i];
                &&& 0 < f.payload.len() <= MAX_PAYLOAD
                &&& f.from == item.side
                &&& f.timestamp == item.timestamp
                &&& f.ack == ack
                &&& f.flags.ack && !f.flags.syn && !f.flags.fin
                &&& f.flags.psh == (i == fragments(item, seq, ack, offset).len() - 1)
            },
    decreases item.bytes.len() - offset,
{
    let all = fragments(item, seq, ack, offset);
    let len = item.bytes.len() as int;
    if offset < len {
        let end = fragment_end(offset, len);
        let rest = fragments(item, advance(seq, end - offset), ack, end);
        lemma_fragments_carry_bytes(item, advance(seq, end - offset), ack, end);
        assert(all.skip(1) =~= rest);
        assert(all[0].payload == item.bytes.subrange(offset, end));
        assert(item.bytes.subrange(offset, end) + item.bytes.subrange(end, len)
            =~= item.bytes.subrange(offset, len));
        assert forall|i: int| 0 <= i < all.len() implies {
            let f = #[trigger] all[i];
            &&& 0 < f.payload.len() <= MAX_PAYLOAD
            &&& f.from == item.side
            &&& f.timestamp == item.timestamp
            &&& f.ack == ack
            &&& f.flags.ack && !f.flags.syn && !f.flags.fin
            &&& f.flags.psh == (i == all.len() - 1)
        } by {
            if i > 0 {
                assert(all[i] == rest[i - 1]);
            } else {
                if end == len {
                    assert(rest.len() == 0);
                }
            }
        }
    } else {
        assert(item.bytes.subrange(offset, len) =~= Seq::<u8>::empty());
    }
}

/// How many bytes the items carry from one side.
pub open spec fn sent(items: Seq<ItemView>, side: Side) -> int
    decreases items.len(),
{
    if items.len() == 0 {
        0
    } else if items.last().side == side {
        sent(items.drop_last(), side) + items.last().bytes.len()
    } else {
        sent(items.drop_last(), side)
    }
}

/// After any number of items each side's sequence number is its initial
/// one, moved on by the handshake and by every byte that side has sent,
/// wrapping at 32 bits. A data segment is sent with its own side's number
/// and acknowledges the other side's.
pub proof fn lemma_numbers_count_bytes(items: Seq<ItemView>)
    ensures
        sent(items, Side::Client) >= 0,
        sent(items, Side::Server) >= 0,
        numbers_after(items).client_seq == advance(
            (CLIENT_ISN + 1) as u32,
            sent(items, Side::Client),
        ),
        numbers_after(items).server_seq == advance(
            (SERVER_ISN + 1) as u32,
            sent(items, Side::Server),
        ),
    decreases items.len(),
{
    if items.len() > 0 {
        let front = items.drop_last();
        lemma_numbers_count_bytes(front);
        let len = items.last().bytes.len() as int;
        lemma_advance_twice((CLIENT_ISN + 1) as u32, sent(front, Side::Client), len);
        lemma_advance_twice((SERVER_ISN + 1) as u32, sent(front, Side::Server), len);
    }
}

/// The last segment of a conversation is its only FIN: it has FIN and
/// ACK, no payload, and comes from the side that closes; no segment
/// before it has FIN.
pub proof fn lemma_closing_is_only_fin(items: Seq<ItemView>)
    requires
        items.len() > 0,
    ensures
        conversation(items).len() == 3 + data_segments(items).len() + 1,
        conversation(items).last() == closing_segment(items),
        conversation(items).last().from == closing_side(items),
        conversation(items).last().payload.len() == 0,
        forall|i: int|
            0 <= i < conversation(items).len() ==> ((#[trigger] conversation(items)[i]).flags.fin
                <==> i == conversation(items).len() - 1),
{
    lemma_data_segments_have_no_fin(items);
    let opening = handshake(items[0].timestamp);
    let data = data_segments(items);
    let all = conversation(items);
    assert forall|i: int| 0 <= i < all.len() implies ((#[trigger] all[i]).flags.fin <==> i
        == all.len() - 1) by {
        if i < 3 {
            assert(all[i] == opening[i]);
        } else if i < 3 + data.len() {
            assert(all[i] == data[i - 3]);
        } else {
            assert(all[i] == closing_segment(items));
        }
    }
}

/// No data segment has FIN or SYN, and all have ACK.
pub proof fn lemma_data_segments_have_no_fin(items: Seq<ItemView>)
    ensures
        forall|i: int|
            0 <= i < data_segments(items).len() ==> {
                let f = (#[trigger] data_segments(items)[i]).flags;
                !f.fin && !f.syn && f.ack
            },
    decreases items.len(),
{
    if items.len() > 0 {
        let before = numbers_after(items.drop_last());
        let item = items.last();
        let front = data_segments(items.drop_last());
        let tail = fragments(item, seq_of(before, item.side), seq_of(before, item.side.peer()), 0);
        lemma_data_segments_have_no_fin(items.drop_last());
        lemma_fragments_carry_bytes(
            item,
            seq_of(before, item.side),
            seq_of(before, item.side.peer()),
            0,
        );
        let all = data_segments(items);
        assert forall|i: int| 0 <= i < all.len() implies {
            let f = (#[trigger] all[i]).flags;
            !f.fin && !f.syn && f.ack
        } by {
            if i < front.len() {
                assert(all[i] == front[i]);
            } else {
                assert(all[i] == tail[i - front.len()]);
            }
        }
    }
}

/// The side that closes has sent the last byte of the conversation: no
/// item after its last one with bytes carries any.
pub proof fn lemma_closing_side_sent_last(items: Seq<ItemView>, k: int)
    requires
        0 <= k < items.len(),
        items[k].bytes.len() > 0,
        forall|j: int| k < j < items.len() ==> (#[trigger] items[j]).bytes.len() == 0,
    ensures
        last_data_side(items) == Some(items[k].side),
        closing_side(items) == items[k].side,
    decreases items.len(),
{
    if k < items.len() - 1 {
        assert(items[items.len() - 1].bytes.len() == 0);
        let front = items.drop_last();
        assert(front[k] == items[k]);
        assert forall|j: int| k < j < front.len() implies (#[trigger] front[j]).bytes.len()
            == 0 by {
            assert(front[j] == items[j]);
        }
        lemma_closing_side_sent_last(front, k);
    }
}

} // verus!
