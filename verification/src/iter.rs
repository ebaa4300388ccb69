//! The order in which the recorded traffic of a flow is replayed.

use vstd::prelude::*;
use crate::clock::Timestamp;
use crate::clock::lemma_order_total;
use crate::clock::lemma_order_transitive;
use crate::flow::Endpoint;
use crate::flow::Flow;
use crate::flow::HttpFlow;
use crate::flow::RawFlow;
use crate::flow::Side;
use crate::history::RawChunk;
use crate::history::chronological;
use crate::history::chunks_cover;
use crate::http::HttpRequest;
use crate::http::HttpResponse;

verus! {

/// What is left of the two chunk indexes from positions `ci` and `si`, merged
/// by timestamp: the earlier chunk first, the client's at equal times.
pub open spec fn merged(client: Seq<RawChunk>, server: Seq<RawChunk>, ci: int, si: int) -> Seq<
    (Side, RawChunk),
>
    decreases client.len() - ci, server.len() - si,
{
    if 0 <= ci < client.len() && 0 <= si < server.len() {
        if client[ci].timestamp.le(server[si].timestamp) {
            seq![(Side::Client, client[ci])] + merged(client, server, ci + 1, si)
        } else {
            seq![(Side::Server, server[si])] + merged(client, server, ci, si + 1)
        }
    } else if 0 <= ci < client.len() {
        seq![(Side::Client, client[ci])] + merged(client, server, ci + 1, si)
    } else if 0 <= si < server.len() {
        seq![(Side::Server, server[si])] + merged(client, server, ci, si + 1)
    } else {
        Seq::<(Side, RawChunk)>::empty()
    }
}

/// What is left of `requests` requests and `responses` responses from
/// positions `ci` and `si`, interleaved by index: request `i` stands
/// before response `i`, and where the message whose turn it is does not
/// exist, the other side's remaining messages follow in their order.
pub open spec fn interleaved(requests: int, responses: int, ci: int, si: int) -> Seq<(Side, int)>
    decreases requests - ci, responses - si,
{
    if 0 <= ci < requests && (ci <= si || !(0 <= si < responses)) {
        seq![(Side::Client, ci)] + interleaved(requests, responses, ci + 1, si)
    } else if 0 <= si < responses {
        seq![(Side::Server, si)] + interleaved(requests, responses, ci, si + 1)
    } else {
        Seq::<(Side, int)>::empty()
    }
}

/// The interleaved order holds every message that is left, once.
pub proof fn lemma_interleaved_len(requests: int, responses: int, ci: int, si: int)
    requires
        0 <= ci <= requests,
        0 <= si <= responses,
    ensures
        interleaved(requests, responses, ci, si).len() == (requests - ci) + (responses - si),
    decreases requests - ci + responses - si,
{
    if ci < requests && (ci <= si || !(si < responses)) {
        lemma_interleaved_len(requests, responses, ci + 1, si);
    } else if si < responses {
        lemma_interleaved_len(requests, responses, ci, si + 1);
    }
}

/// Walks the chunks of a raw flow in merged order.
pub struct RawFlowIterator<'a> {
    pub flow: &'a RawFlow,
    pub client_index: usize,
    pub server_index: usize,
}

impl<'a> RawFlowIterator<'a> {
    /// The chunks still to come.
    pub open spec fn remaining(&self) -> Seq<(Side, RawChunk)> {
        merged(
            self.flow.client_history.chunks@,
            self.flow.server_history.chunks@,
            self.client_index as int,
            self.server_index as int,
        )
    }

    /// An iterator at the start of both histories.
    pub fn new(flow: &'a RawFlow) -> (it: RawFlowIterator<'a>)
        ensures
            it.flow == flow,
            it.client_index == 0,
            it.server_index == 0,
            it.remaining() == merged(
                flow.client_history.chunks@,
                flow.server_history.chunks@,
                0,
                0,
            ),
    {
        RawFlowIterator { flow, client_index: 0, server_index: 0 }
    }

    /// The next chunk in merged order with the side it came from, or
    /// nothing when both histories are used up.
    pub fn next(&mut self) -> (item: Option<(Side, RawChunk)>)
        ensures
            final(self).flow == old(self).flow,
            match item {
                Some(entry) => {
                    &&& old(self).remaining().len() > 0
                    &&& entry == old(self).remaining()[0]
                    &&& final(self).remaining() == old(self).remaining().subrange(
                        1,
                        old(self).remaining().len() as int,
                    )
                    &&& match entry.0 {
                        Side::Client => {
                            &&& old(self).client_index < old(self).flow.client_history.chunks@.len()
                            &&& entry.1 == old(self).flow.client_history.chunks@[old(
                                self,
                            ).client_index as int]
                            &&& final(self).client_index == old(self).client_index + 1
                            &&& final(self).server_index == old(self).server_index
                        },
                        Side::Server => {
                            &&& old(self).server_index < old(self).flow.server_history.chunks@.len()
                            &&& entry.1 == old(self).flow.server_history.chunks@[old(
                                self,
                            ).server_index as int]
                            &&& final(self).server_index == old(self).server_index + 1
                            &&& final(self).client_index == old(self).client_index
                        },
                    }
                },
                None => old(self).remaining().len() == 0 && final(self).client_index == old(
                    self,
                ).client_index && final(self).server_index == old(self).server_index,
            },
    {
        let client = &self.flow.client_history.chunks;
        let server = &self.flow.server_history.chunks;
        let ghost rest = self.remaining();
        if self.client_index < client.len() && self.server_index < server.len() {
            let c = &client[self.client_index];
            let s = &server[self.server_index];
            if c.timestamp.is_not_after(&s.timestamp) {
                self.client_index += 1;
                assert(self.remaining() =~= rest.subrange(1, rest.len() as int));
                Some((Side::Client, c.clone()))
            } else {
                self.server_index += 1;
                assert(self.remaining() =~= rest.subrange(1, rest.len() as int));
                Some((Side::Server, s.clone()))
            }
        } else if self.client_index < client.len() {
            let c = &client[self.client_index];
            self.client_index += 1;
            assert(self.remaining() =~= rest.subrange(1, rest.len() as int));
            Some((Side::Client, c.clone()))
        } else if self.server_index < server.len() {
            let s = &server[self.server_index];
            self.server_index += 1;
            assert(self.remaining() =~= rest.subrange(1, rest.len() as int));
            Some((Side::Server, s.clone()))
        } else {
            None
        }
    }
}

/// A recorded request or response.
pub enum EitherHttp<'a> {
    Left(&'a HttpRequest),
    Right(&'a HttpResponse),
}

/// Walks the messages of an HTTP flow in interleaved order.
pub struct HttpFlowIterator<'a> {
    pub flow: &'a HttpFlow,
    pub client_index: usize,
    pub server_index: usize,
}

impl<'a> HttpFlowIterator<'a> {
    /// The sides and indexes of the messages still to come.
    pub open spec fn remaining(&self) -> Seq<(Side, int)> {
        interleaved(
            self.flow.history.requests@.len() as int,
            self.flow.history.responses@.len() as int,
            self.client_index as int,
            self.server_index as int,
        )
    }

    /// An iterator before the first request.
    pub fn new(flow: &'a HttpFlow) -> (it: HttpFlowIterator<'a>)
        ensures
            it.flow == flow,
            it.client_index == 0,
            it.server_index == 0,
    {
        HttpFlowIterator { flow, client_index: 0, server_index: 0 }
    }

    /// The next message in interleaved order, with its side and its time,
    /// or nothing when every request and every response has been given.
    pub fn next(&mut self) -> (item: Option<(Side, Timestamp, EitherHttp<'a>)>)
        requires
            old(self).client_index <= old(self).flow.history.requests@.len(),
            old(self).server_index <= old(self).flow.history.responses@.len(),
        ensures
            final(self).flow == old(self).flow,
            final(self).client_index <= final(self).flow.history.requests@.len(),
            final(self).server_index <= final(self).flow.history.responses@.len(),
            match item {
                Some((side, at, message)) => {
                    &&& old(self).remaining().len() > 0
                    &&& old(self).remaining()[0].0 == side
                    &&& final(self).remaining() == old(self).remaining().subrange(
                        1,
                        old(self).remaining().len() as int,
                    )
                    &&& match message {
                        EitherHttp::Left(req) => {
                            &&& side == Side::Client
                            &&& old(self).remaining()[0].1 == old(self).client_index
                            &&& old(self).client_index < old(self).flow.history.requests@.len()
                            &&& *req == old(self).flow.history.requests@[old(
                                self,
                            ).client_index as int].0
                            &&& at == old(self).flow.history.requests@[old(
                                self,
                            ).client_index as int].1
                            &&& final(self).client_index == old(self).client_index + 1
                            &&& final(self).server_index == old(self).server_index
                        },
                        EitherHttp::Right(resp) => {
                            &&& side == Side::Server
                            &&& old(self).remaining()[0].1 == old(self).server_index
                            &&& old(self).server_index < old(self).flow.history.responses@.len()
                            &&& *resp == old(self).flow.history.responses@[old(
                                self,
                            ).server_index as int].0
                            &&& at == old(self).flow.history.responses@[old(
                                self,
                            ).server_index as int].1
                            &&& final(self).server_index == old(self).server_index + 1
                            &&& final(self).client_index == old(self).client_index
                        },
                    }
                },
                None => {
                    &&& old(self).remaining().len() == 0
                    &&& old(self).client_index == old(self).flow.history.requests@.len()
                    &&& old(self).server_index == old(self).flow.history.responses@.len()
                    &&& final(self).client_index == old(self).client_index
                    &&& final(self).server_index == old(self).server_index
                },
            },
    {
        let ghost rest = self.remaining();
        let requests = self.flow.history.requests.len();
        let responses = self.flow.history.responses.len();
        if self.client_index < requests && (self.client_index <= self.server_index
            || self.server_index >= responses) {
            let entry = &self.flow.history.requests[self.client_index];
            self.client_index += 1;
            assert(self.remaining() =~= rest.subrange(1, rest.len() as int));
            Some((Side::Client, entry.1, EitherHttp::Left(&entry.0)))
        } else if self.server_index < responses {
            let entry = &self.flow.history.responses[self.server_index];
            self.server_index += 1;
            assert(self.remaining() =~= rest.subrange(1, rest.len() as int));
            Some((Side::Server, entry.1, EitherHttp::Right(&entry.0)))
        } else {
            None
        }
    }
}

/// Every chunk of a tiling index ends within the tiled length, and a
/// later chunk does not end before an earlier one.
pub proof fn lemma_chunks_in_bounds(chunks: Seq<RawChunk>, len: int, i: int)
    requires
        chunks_cover(chunks, len),
        0 <= i < chunks.len(),
    ensures
        0 <= chunks[i].range.start <= chunks[i].range.end <= len,
    decreases chunks.len() - i,
{
    if i < chunks.len() - 1 {
        lemma_chunks_in_bounds(chunks, len, i + 1);
        assert(chunks[i].range.end == chunks[i + 1].range.start);
    }
}

/// The merged order holds every chunk of both histories.
pub proof fn lemma_merged_len(client: Seq<RawChunk>, server: Seq<RawChunk>, ci: int, si: int)
    requires
        0 <= ci <= client.len(),
        0 <= si <= server.len(),
    ensures
        merged(client, server, ci, si).len() == (client.len() - ci) + (server.len() - si),
    decreases client.len() - ci + server.len() - si,
{
    if ci < client.len() && si < server.len() {
        if client[ci].timestamp.le(server[si].timestamp) {
            lemma_merged_len(client, server, ci + 1, si);
        } else {
            lemma_merged_len(client, server, ci, si + 1);
        }
    } else if ci < client.len() {
        lemma_merged_len(client, server, ci + 1, si);
    } else if si < server.len() {
        lemma_merged_len(client, server, ci, si + 1);
    }
}

/// Every chunk of the merged order is at or after the position it was
/// merged from in its own history, and is no earlier than `floor` if the
/// chunks at those positions are not.
proof fn lemma_merged_floor(
    client: Seq<RawChunk>,
    server: Seq<RawChunk>,
    ci: int,
    si: int,
    floor: Timestamp,
    k: int,
)
    requires
        chronological(client),
        chronological(server),
        0 <= ci <= client.len(),
        0 <= si <= server.len(),
        ci < client.len() ==> floor.le(client[ci].timestamp),
        si < server.len() ==> floor.le(server[si].timestamp),
        0 <= k < merged(client, server, ci, si).len(),
    ensures
        floor.le(merged(client, server, ci, si)[k].1.timestamp),
    decreases client.len() - ci + server.len() - si,
{
    let take_client = if ci < client.len() && si < server.len() {
        client[ci].timestamp.le(server[si].timestamp)
    } else {
        ci < client.len()
    };
    if k > 0 {
        if take_client {
            if ci + 1 < client.len() {
                lemma_order_transitive(floor, client[ci].timestamp, client[ci + 1].timestamp);
            }
            lemma_merged_floor(client, server, ci + 1, si, floor, k - 1);
        } else {
            if si + 1 < server.len() {
                lemma_order_transitive(floor, server[si].timestamp, server[si + 1].timestamp);
            }
            lemma_merged_floor(client, server, ci, si + 1, floor, k - 1);
        }
    }
}

/// Merging two histories that are each in chronological order gives one
/// chronological order.
pub proof fn lemma_merged_chronological(
    client: Seq<RawChunk>,
    server: Seq<RawChunk>,
    ci: int,
    si: int,
    i: int,
    j: int,
)
    requires
        chronological(client),
        chronological(server),
        0 <= ci <= client.len(),
        0 <= si <= server.len(),
        0 <= i <= j < merged(client, server, ci, si).len(),
    ensures
        merged(client, server, ci, si)[i].1.timestamp.le(
            merged(client, server, ci, si)[j].1.timestamp,
        ),
    decreases client.len() - ci + server.len() - si,
{
    let take_client = if ci < client.len() && si < server.len() {
        client[ci].timestamp.le(server[si].timestamp)
    } else {
        ci < client.len()
    };
    if i > 0 {
        if take_client {
            lemma_merged_chronological(client, server, ci + 1, si, i - 1, j - 1);
        } else {
            lemma_merged_chronological(client, server, ci, si + 1, i - 1, j - 1);
        }
    } else if j > 0 {
        if take_client {
            let head = client[ci].timestamp;
            if ci + 1 < client.len() {
                assert(head.le(client[ci + 1].timestamp));
            }
            lemma_merged_floor(client, server, ci + 1, si, head, j - 1);
        } else {
            let head = server[si].timestamp;
            if si + 1 < server.len() {
                assert(head.le(server[si + 1].timestamp));
            }
            if ci < client.len() {
                lemma_order_total(head, client[ci].timestamp);
            }
            lemma_merged_floor(client, server, ci, si + 1, head, j - 1);
        }
    }
}

/// The bytes of one replayed item: a slice of a history, or a message
/// serialised for the purpose.
pub enum ChunkBytes<'a> {
    Borrowed(&'a [u8]),
    Owned(Vec<u8>),
}

impl<'a> View for ChunkBytes<'a> {
    type V = Seq<u8>;

    open spec fn view(&self) -> Seq<u8> {
        match self {
            ChunkBytes::Borrowed(bytes) => bytes@,
            ChunkBytes::Owned(bytes) => bytes@,
        }
    }
}

impl<'a> ChunkBytes<'a> {
    /// The bytes, wherever they are kept.
    pub fn as_slice(&self) -> (bytes: &[u8])
        ensures
            bytes@ == self@,
    {
        match self {
            ChunkBytes::Borrowed(bytes) => bytes,
            ChunkBytes::Owned(bytes) => bytes.as_slice(),
        }
    }
}

/// One piece of replayed traffic: who sent it, when, and its bytes.
pub struct FlowItem<'a> {
    pub side: Side,
    pub addr: Endpoint,
    pub timestamp: Timestamp,
    pub bytes: ChunkBytes<'a>,
}

/// A replayed item as a value.
pub struct ItemView {
    pub side: Side,
    pub addr: Endpoint,
    pub timestamp: Timestamp,
    pub bytes: Seq<u8>,
}

impl<'a> View for FlowItem<'a> {
    type V = ItemView;

    open spec fn view(&self) -> ItemView {
        ItemView {
            side: self.side,
            addr: self.addr,
            timestamp: self.timestamp,
            bytes: self.bytes@,
        }
    }
}

/// A list of replayed items as values.
pub open spec fn items_view(items: Seq<FlowItem<'_>>) -> Seq<ItemView> {
    items.map_values(|item: FlowItem<'_>| item@)
}

/// One chunk of a raw flow as a replayed item, with the address of the
/// side it came from.
pub open spec fn raw_item(flow: &RawFlow, entry: (Side, RawChunk)) -> ItemView {
    ItemView {
        side: entry.0,
        addr: match entry.0 {
            Side::Client => flow.client_addr,
            Side::Server => flow.server_addr,
        },
        timestamp: entry.1.timestamp,
        bytes: match entry.0 {
            Side::Client => flow.client_history.bytes@.subrange(
                entry.1.range.start as int,
                entry.1.range.end as int,
            ),
            Side::Server => flow.server_history.bytes@.subrange(
                entry.1.range.start as int,
                entry.1.range.end as int,
            ),
        },
    }
}

/// One message of an HTTP flow as a replayed item: its wire form, from
/// the side that sent it and with that side's address.
pub open spec fn http_item(flow: &HttpFlow, entry: (Side, int)) -> ItemView {
    match entry.0 {
        Side::Client => ItemView {
            side: Side::Client,
            addr: flow.client_addr,
            timestamp: flow.history.requests@[entry.1].1,
            bytes: flow.history.requests@[entry.1].0@.wire(),
        },
        Side::Server => ItemView {
            side: Side::Server,
            addr: flow.server_addr,
            timestamp: flow.history.responses@[entry.1].1,
            bytes: flow.history.responses@[entry.1].0@.wire(),
        },
    }
}

/// The items of a raw flow: its chunks in merged order, each with its bytes.
pub open spec fn raw_items(flow: &RawFlow) -> Seq<ItemView> {
    merged(flow.client_history.chunks@, flow.server_history.chunks@, 0, 0).map_values(
        |entry: (Side, RawChunk)| raw_item(flow, entry),
    )
}

/// The items of an HTTP flow: its messages in interleaved order, each in
/// wire form.
pub open spec fn http_items(flow: &HttpFlow) -> Seq<ItemView> {
    interleaved(
        flow.history.requests@.len() as int,
        flow.history.responses@.len() as int,
        0,
        0,
    ).map_values(|entry: (Side, int)| http_item(flow, entry))
}

/// The items of a flow in the order they are replayed.
pub open spec fn flow_items(flow: &Flow) -> Seq<ItemView> {
    match flow {
        Flow::Raw(raw) => raw_items(raw),
        Flow::Http(http) => http_items(http),
    }
}

/// Walks the recorded traffic of a flow of either kind.
pub enum FlowIterator<'a> {
    Raw(RawFlowIterator<'a>),
    Http(HttpFlowIterator<'a>),
}

impl<'a> FlowIterator<'a> {
    /// The histories of a raw flow tile their bytes; the positions in an
    /// HTTP flow are within its lists.
    pub open spec fn wf(&self) -> bool {
        match self {
            FlowIterator::Raw(raw) => raw.flow.wf(),
            FlowIterator::Http(http) => http.client_index <= http.flow.history.requests@.len()
                && http.server_index <= http.flow.history.responses@.len(),
        }
    }

    /// The items still to come.
    pub open spec fn remaining(&self) -> Seq<ItemView> {
        match self {
            FlowIterator::Raw(raw) => raw.remaining().map_values(
                |entry: (Side, RawChunk)| raw_item(raw.flow, entry),
            ),
            FlowIterator::Http(http) => http.remaining().map_values(
                |entry: (Side, int)| http_item(http.flow, entry),
            ),
        }
    }

    /// An iterator at the start of the flow's traffic.
    pub fn new(flow: &'a Flow) -> (it: FlowIterator<'a>)
        requires
            flow matches Flow::Raw(raw) ==> raw.wf(),
        ensures
            it.wf(),
            it.remaining() == flow_items(flow),
    {
        match flow {
            Flow::Raw(raw) => FlowIterator::Raw(RawFlowIterator::new(raw)),
            Flow::Http(http) => FlowIterator::Http(HttpFlowIterator::new(http)),
        }
    }

    /// The next item, or nothing at the end of the replay.
    pub fn next(&mut self) -> (item: Option<FlowItem<'a>>)
        requires
            old(self).wf(),
        ensures
            final(self).wf(),
            match item {
                Some(found) => old(self).remaining().len() > 0 && found@ == old(
                    self,
                ).remaining()[0] && final(self).remaining() == old(self).remaining().subrange(
                    1,
                    old(self).remaining().len() as int,
                ),
                None => old(self).remaining().len() == 0 && final(self).remaining().len() == 0,
            },
    {
        match self {
            FlowIterator::Raw(raw) => {
                let flow: &'a RawFlow = raw.flow;
                let ghost rest = raw.remaining();
                match raw.next() {
                    Some((side, chunk)) => {
                        let history = match side {
                            Side::Client => &flow.client_history,
                            Side::Server => &flow.server_history,
                        };
                        let addr = match side {
                            Side::Client => flow.client_addr,
                            Side::Server => flow.server_addr,
                        };
                        proof {
                            match side {
                                Side::Client => lemma_chunks_in_bounds(
                                    flow.client_history.chunks@,
                                    flow.client_history.bytes@.len() as int,
                                    raw.client_index - 1,
                                ),
                                Side::Server => lemma_chunks_in_bounds(
                                    flow.server_history.chunks@,
                                    flow.server_history.bytes@.len() as int,
                                    raw.server_index - 1,
                                ),
                            }
                        }
                        let bytes = vstd::slice::slice_subrange(
                            history.bytes.as_slice(),
                            chunk.range.start,
                            chunk.range.end,
                        );
                        let found = FlowItem {
                            side,
                            addr,
                            timestamp: chunk.timestamp,
                            bytes: ChunkBytes::Borrowed(bytes),
                        };
                        proof {
                            assert(found@ == raw_item(flow, rest[0]));
                            assert(self.remaining() =~= old(self).remaining().subrange(
                                1,
                                old(self).remaining().len() as int,
                            ));
                        }
                        Some(found)
                    },
                    None => None,
                }
            },
            FlowIterator::Http(http) => {
                let flow: &'a HttpFlow = http.flow;
                let ghost rest = http.remaining();
                match http.next() {
                    Some((side, at, message)) => {
                        let found = match message {
                            EitherHttp::Left(req) => FlowItem {
                                side,
                                addr: flow.client_addr,
                                timestamp: at,
                                bytes: ChunkBytes::Owned(req.to_bytes()),
                            },
                            EitherHttp::Right(resp) => FlowItem {
                                side,
                                addr: flow.server_addr,
                                timestamp: at,
                                bytes: ChunkBytes::Owned(resp.to_bytes()),
                            },
                        };
                        proof {
                            assert(found@ == http_item(flow, rest[0]));
                            assert(self.remaining() =~= old(self).remaining().subrange(
                                1,
                                old(self).remaining().len() as int,
                            ));
                        }
                        Some(found)
                    },
                    None => None,
                }
            },
        }
    }

    /// All the items of a flow in the order they are replayed.
    pub fn collect(flow: &'a Flow) -> (items: Vec<FlowItem<'a>>)
        requires
            flow matches Flow::Raw(raw) ==> raw.wf(),
        ensures
            items_view(items@) == flow_items(flow),
    {
        let mut it = FlowIterator::new(flow);
        let mut items: Vec<FlowItem<'a>> = Vec::new();
        loop
            invariant
                it.wf(),
                items_view(items@) + it.remaining() == flow_items(flow),
            ensures
                items_view(items@) == flow_items(flow),
            decreases it.remaining().len(),
        {
            let ghost before = items_view(items@);
            let ghost rest = it.remaining();
            match it.next() {
                Some(found) => {
                    items.push(found);
                    proof {
                        assert(items_view(items@) =~= before.push(rest[0]));
                        assert(items_view(items@) + it.remaining() =~= before + rest);
                    }
                },
                None => {
                    assert(items_view(items@) =~= items_view(items@) + it.remaining());
                    break ;
                },
            }
        }
        items
    }
}

/// The chunks that a merged order holds from one side, in their order.
pub open spec fn of_side(order: Seq<(Side, RawChunk)>, side: Side) -> Seq<RawChunk>
    decreases order.len(),
{
    if order.len() == 0 {
        Seq::<RawChunk>::empty()
    } else if order[0].0 == side {
        seq![order[0].1] + of_side(order.skip(1), side)
    } else {
        of_side(order.skip(1), side)
    }
}

/// Merging loses and reorders nothing within a side: the chunks that the
/// merged order holds from each side are that side's chunks, in their order.
pub proof fn lemma_merged_keeps_sides(
    client: Seq<RawChunk>,
    server: Seq<RawChunk>,
    ci: int,
    si: int,
)
    requires
        0 <= ci <= client.len(),
        0 <= si <= server.len(),
    ensures
        of_side(merged(client, server, ci, si), Side::Client) == client.subrange(
            ci,
            client.len() as int,
        ),
        of_side(merged(client, server, ci, si), Side::Server) == server.subrange(
            si,
            server.len() as int,
        ),
    decreases client.len() - ci + server.len() - si,
{
    let order = merged(client, server, ci, si);
    let take_client = if ci < client.len() && si < server.len() {
        client[ci].timestamp.le(server[si].timestamp)
    } else {
        ci < client.len()
    };
    if ci < client.len() || si < server.len() {
        if take_client {
            lemma_merged_keeps_sides(client, server, ci + 1, si);
            assert(order.skip(1) =~= merged(client, server, ci + 1, si));
            assert(seq![client[ci]] + client.subrange(ci + 1, client.len() as int)
                =~= client.subrange(ci, client.len() as int));
        } else {
            lemma_merged_keeps_sides(client, server, ci, si + 1);
            assert(order.skip(1) =~= merged(client, server, ci, si + 1));
            assert(seq![server[si]] + server.subrange(si + 1, server.len() as int)
                =~= server.subrange(si, server.len() as int));
        }
    } else {
        assert(client.subrange(ci, client.len() as int) =~= Seq::<RawChunk>::empty());
        assert(server.subrange(si, server.len() as int) =~= Seq::<RawChunk>::empty());
    }
}

} // verus!
