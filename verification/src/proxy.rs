//! The decisions of the acceptor loop and of the raw flow engine.

use vstd::prelude::*;
use std::ops::ControlFlow;
use crate::clock::Span;
use crate::clock::Timestamp;
use crate::clock::now;
use crate::flow::Endpoint;
use crate::flow::Flow;
use crate::flow::IsFlow;
use crate::flow::HttpFlow;
use crate::flow::RawFlow;
use crate::flow::Side;
use crate::flow::is_random_uuid;
use crate::history::RawChunk;
use crate::history::RawHistory;
use crate::history::chronological;
use crate::service::Service;

verus! {

/// How a read into a history ended.
#[derive(Clone, Copy, Debug, PartialEq, Eq, Structural)]
pub enum FlowStatus {
    /// A chunk was recorded and the flow goes on.
    Read,
    /// The peer closed its side.
    Closed,
    /// Nothing arrived within the idle timeout.
    Timeout,
    /// A chunk was recorded and the history reached its ceiling.
    HistoryTooBig,
}

/// What a stream gave within the idle timeout. Errors of the stream are
/// the caller's to propagate.
pub enum ReadEvent {
    /// These bytes were read; none means the peer closed its side.
    Data(Vec<u8>),
    /// The timeout elapsed first.
    TimedOut,
}

/// Why a raw flow ends.
#[derive(Clone, Copy, Debug, PartialEq, Eq, Structural)]
pub enum Ending {
    /// A hook asked for the end of the flow.
    Killed,
    /// That side closed.
    Eof(Side),
    /// That side was idle for too long.
    IdleTimeout(Side),
    /// That side's history reached its ceiling.
    HistoryFull(Side),
}

/// What the raw flow engine does next.
#[derive(Clone, Copy, Debug, PartialEq, Eq, Structural)]
pub enum RawStep {
    /// Wait for a chunk from either side.
    Select,
    /// Hand the last chunk of that side to its hook.
    RunHook(Side),
    /// Write the last chunk of `from` to the other side, within `timeout`.
    Forward { from: Side, timeout: Span },
    /// Leave the loop: flush both streams, then shut both down.
    Close(Ending),
}

/// The status of a read that added `n` bytes to a history of `before`
/// bytes with ceiling `max`.
pub open spec fn read_status(before: int, n: int, max: int) -> FlowStatus {
    if n == 0 {
        FlowStatus::Closed
    } else if before + n >= max {
        FlowStatus::HistoryTooBig
    } else {
        FlowStatus::Read
    }
}

/// The status that a read event gives on a history of `before` bytes with
/// ceiling `max`.
pub open spec fn event_status(event: &ReadEvent, before: int, max: int) -> FlowStatus {
    match event {
        ReadEvent::TimedOut => FlowStatus::Timeout,
        ReadEvent::Data(data) => read_status(before, data@.len() as int, max),
    }
}

/// The bytes that a read event brings.
pub open spec fn event_bytes(event: &ReadEvent) -> Seq<u8> {
    match event {
        ReadEvent::TimedOut => Seq::<u8>::empty(),
        ReadEvent::Data(data) => data@,
    }
}

/// The step after the hook that runs when a raw flow opens.
pub open spec fn step_after_open(verdict: ControlFlow<()>) -> RawStep {
    match verdict {
        ControlFlow::Break(_) => RawStep::Close(Ending::Killed),
        ControlFlow::Continue(_) => RawStep::Select,
    }
}

/// The step after a hook has seen the last chunk of `side`.
pub open spec fn step_after_hook(side: Side, verdict: ControlFlow<()>, timeout: Span) -> RawStep {
    match verdict {
        ControlFlow::Break(_) => RawStep::Close(Ending::Killed),
        ControlFlow::Continue(_) => RawStep::Forward { from: side, timeout },
    }
}

/// The step after a read on `side` ended with `status`.
pub open spec fn step_after_read(side: Side, status: FlowStatus, hooked: bool, timeout: Span)
    -> RawStep {
    match status {
        FlowStatus::Read => if hooked {
            RawStep::RunHook(side)
        } else {
            RawStep::Forward { from: side, timeout }
        },
        FlowStatus::Closed => RawStep::Close(Ending::Eof(side)),
        FlowStatus::Timeout => RawStep::Close(Ending::IdleTimeout(side)),
        FlowStatus::HistoryTooBig => RawStep::Close(Ending::HistoryFull(side)),
    }
}

/// The decisions of one service's proxy.
pub struct Proxy {
    pub service: Service,
}

impl Proxy {
    /// The proxy of a service.
    pub fn new(service: Service) -> (p: Proxy)
        ensures
            p.service == service,
    {
        Proxy { service }
    }

    /// The idle timeout of a side.
    pub open spec fn timeout_of(&self, side: Side) -> Span {
        match side {
            Side::Client => self.service.client_timeout,
            Side::Server => self.service.server_timeout,
        }
    }

    /// The timeout for reading from `side`: that side's idle timeout.
    pub fn read_timeout(&self, side: Side) -> (t: Span)
        ensures
            t == self.timeout_of(side),
    {
        match side {
            Side::Client => self.service.client_timeout,
            Side::Server => self.service.server_timeout,
        }
    }

    /// The timeout for writing to `side`: that side's idle timeout.
    pub fn write_timeout(&self, side: Side) -> (t: Span)
        ensures
            t == self.timeout_of(side),
    {
        self.read_timeout(side)
    }

    /// The flow for a client accepted from `client_addr`, with a given
    /// identity: an HTTP flow where the service has HTTP settings, else a raw
    /// one, empty, with the service's ceilings and upstream address.
    pub fn new_flow_with(&self, id: crate::flow::FlowId, start: Timestamp, client_addr: Endpoint)
        -> (flow: Flow)
        ensures
            flow.id_of() == id,
            flow.start_of() == start,
            flow.client_addr_of() == client_addr,
            flow.server_addr_of() == self.service.server_addr,
            (flow is Http) == (self.service.http_config is Some),
            match flow {
                Flow::Raw(raw) => {
                    &&& raw.wf()
                    &&& raw.client_history.bytes@.len() == 0
                    &&& raw.client_history.chunks@.len() == 0
                    &&& raw.client_history.max_size == self.service.client_max_history
                    &&& raw.server_history.bytes@.len() == 0
                    &&& raw.server_history.chunks@.len() == 0
                    &&& raw.server_history.max_size == self.service.server_max_history
                },
                Flow::Http(http) => {
                    &&& http.history.wf()
                    &&& http.history.requests@.len() == 0
                    &&& http.history.responses@.len() == 0
                    &&& http.history.client_size == 0
                    &&& http.history.server_size == 0
                    &&& http.history.client_max == self.service.client_max_history
                    &&& http.history.server_max == self.service.server_max_history
                },
            },
    {
        if self.service.http_config.is_some() {
            Flow::Http(
                HttpFlow::with_identity(
                    id,
                    start,
                    client_addr,
                    self.service.client_max_history,
                    self.service.server_addr,
                    self.service.server_max_history,
                ),
            )
        } else {
            Flow::Raw(
                RawFlow::with_identity(
                    id,
                    start,
                    client_addr,
                    self.service.client_max_history,
                    self.service.server_addr,
                    self.service.server_max_history,
                ),
            )
        }
    }

    /// The flow for a client accepted now from `client_addr`, with a fresh
    /// identifier: an HTTP flow where the service has HTTP settings, else a
    /// raw one.
    pub fn new_flow(&self, client_addr: Endpoint) -> (flow: Flow)
        ensures
            is_random_uuid(flow.id_of().value),
            flow.start_of().secs >= 0,
            flow.start_of().nanos < 1_000_000_000,
            flow.client_addr_of() == client_addr,
            flow.server_addr_of() == self.service.server_addr,
            (flow is Http) == (self.service.http_config is Some),
            match flow {
                Flow::Raw(raw) => {
                    &&& raw.wf()
                    &&& raw.client_history.bytes@.len() == 0
                    &&& raw.client_history.chunks@.len() == 0
                    &&& raw.client_history.max_size == self.service.client_max_history
                    &&& raw.server_history.bytes@.len() == 0
                    &&& raw.server_history.chunks@.len() == 0
                    &&& raw.server_history.max_size == self.service.server_max_history
                },
                Flow::Http(http) => {
                    &&& http.history.wf()
                    &&& http.history.requests@.len() == 0
                    &&& http.history.responses@.len() == 0
                    &&& http.history.client_size == 0
                    &&& http.history.server_size == 0
                    &&& http.history.client_max == self.service.client_max_history
                    &&& http.history.server_max == self.service.server_max_history
                },
            },
    {
        self.new_flow_with(crate::flow::fresh_flow_id(), now(), client_addr)
    }

    /// Records what a read gave, stamped `at`. A timeout and an end of
    /// stream leave the history as it is. Bytes become a new chunk, and the
    /// status tells whether the history has reached its ceiling with them.
    pub fn read_chunk_at(history: &mut RawHistory, event: &ReadEvent, at: Timestamp) -> (status:
        FlowStatus)
        requires
            old(history).wf(),
        ensures
            final(history).wf(),
            final(history).max_size == old(history).max_size,
            status == event_status(
                event,
                old(history).bytes@.len() as int,
                old(history).max_size as int,
            ),
            final(history).bytes@ == old(history).bytes@ + event_bytes(event),
            event_bytes(event).len() == 0 ==> final(history).chunks@ == old(history).chunks@,
            event_bytes(event).len() > 0 ==> final(history).chunks@ == old(history).chunks@.push(
                RawChunk {
                    range: (old(history).bytes@.len() as usize)..((old(history).bytes@.len()
                        + event_bytes(event).len()) as usize),
                    timestamp: at,
                },
            ) && final(history).last_chunk_view() == event_bytes(event),
            status == FlowStatus::Read ==> final(history).bytes@.len() < final(history).max_size,
            chronological(old(history).chunks@) && (old(history).chunks@.len() > 0 ==> old(
                history,
            ).chunks@.last().timestamp.le(at)) ==> chronological(final(history).chunks@),
    {
        match event {
            ReadEvent::TimedOut => {
                assert(history.bytes@ =~= old(history).bytes@ + event_bytes(event));
                FlowStatus::Timeout
            },
            ReadEvent::Data(data) => {
                if data.len() == 0 {
                    assert(history.bytes@ =~= old(history).bytes@ + event_bytes(event));
                    FlowStatus::Closed
                } else {
                    history.push_chunk(data.as_slice(), at);
                    if history.bytes.len() >= history.max_size {
                        FlowStatus::HistoryTooBig
                    } else {
                        FlowStatus::Read
                    }
                }
            },
        }
    }

    /// Records what a read gave, stamped with the current time.
    pub fn read_chunk(history: &mut RawHistory, event: &ReadEvent) -> (status: FlowStatus)
        requires
            old(history).wf(),
        ensures
            final(history).wf(),
            final(history).max_size == old(history).max_size,
            status == event_status(
                event,
                old(history).bytes@.len() as int,
                old(history).max_size as int,
            ),
            final(history).bytes@ == old(history).bytes@ + event_bytes(event),
            event_bytes(event).len() == 0 ==> final(history).chunks@ == old(history).chunks@,
            event_bytes(event).len() > 0 ==> final(history).chunks@.len() == old(
                history,
            ).chunks@.len() + 1 && final(history).chunks@.drop_last() == old(history).chunks@
                && final(history).last_chunk_view() == event_bytes(event),
            status == FlowStatus::Read ==> final(history).bytes@.len() < final(history).max_size,
    {
        let at = now();
        let status = Proxy::read_chunk_at(history, event, at);
        proof {
            if event_bytes(event).len() > 0 {
                assert(history.chunks@.drop_last() =~= old(history).chunks@);
            }
        }
        status
    }

    /// The bytes to write after a read: the last chunk of the history.
    pub fn write_last_chunk(history: &RawHistory) -> (chunk: &[u8])
        requires
            history.wf(),
        ensures
            chunk@ == history.last_chunk_view(),
    {
        history.last_chunk()
    }

    /// What to do once the opening hook has answered.
    pub fn after_open(&self, verdict: ControlFlow<()>) -> (step: RawStep)
        ensures
            step == step_after_open(verdict),
    {
        match verdict {
            ControlFlow::Break(_) => RawStep::Close(Ending::Killed),
            ControlFlow::Continue(_) => RawStep::Select,
        }
    }

    /// What to do after a read on `side` ended with `status`: a recorded
    /// chunk goes to that side's hook where `hooked` says there is one, else
    /// straight to the other side; anything else ends the flow.
    pub fn after_read(&self, side: Side, status: FlowStatus, hooked: bool) -> (step: RawStep)
        ensures
            step == step_after_read(side, status, hooked, self.timeout_of(side.peer())),
    {
        match status {
            FlowStatus::Read => {
                if hooked {
                    RawStep::RunHook(side)
                } else {
                    RawStep::Forward { from: side, timeout: self.write_timeout(side.opposite()) }
                }
            },
            FlowStatus::Closed => RawStep::Close(Ending::Eof(side)),
            FlowStatus::Timeout => RawStep::Close(Ending::IdleTimeout(side)),
            FlowStatus::HistoryTooBig => RawStep::Close(Ending::HistoryFull(side)),
        }
    }

    /// What to do once the hook of `side` has answered: forward the chunk,
    /// or end the flow if the hook asked for it.
    pub fn after_hook(&self, side: Side, verdict: ControlFlow<()>) -> (step: RawStep)
        ensures
            step == step_after_hook(side, verdict, self.timeout_of(side.peer())),
    {
        match verdict {
            ControlFlow::Break(_) => RawStep::Close(Ending::Killed),
            ControlFlow::Continue(_) => RawStep::Forward {
                from: side,
                timeout: self.write_timeout(side.opposite()),
            },
        }
    }
}

/// A history below its ceiling stays at or below it through a read that
/// brings no more bytes than the room left, and the read that fills the
/// room exactly is reported as reaching the ceiling.
pub proof fn lemma_ceiling_at_termination(before: int, n: int, max: int)
    requires
        0 <= before < max,
        0 < n <= max - before,
    ensures
        before + n <= max,
        read_status(before, n, max) == FlowStatus::HistoryTooBig <==> before + n == max,
        read_status(before, n, max) == FlowStatus::Read <==> before + n < max,
{
}

/// What happened to a client on its way to becoming a flow.
#[derive(Clone, Copy, Debug)]
pub enum AcceptEvent {
    /// Accepting the client failed, in TCP or in the TLS handshake.
    AcceptFailed,
    /// The client was accepted and the upstream service could not be reached.
    ConnectFailed,
    /// Both connections stand.
    Connected,
    /// The HTTP handshake with the upstream service failed.
    HandshakeFailed,
    /// The HTTP handshake with the upstream service succeeded.
    HandshakeDone,
    /// The hook for opening HTTP flows has answered.
    Opened(ControlFlow<()>),
}

/// What the acceptor does next.
#[derive(Clone, Copy, Debug, PartialEq, Eq, Structural)]
pub enum AcceptStep {
    /// Drop what there is of this client and accept the next one.
    Next,
    /// Half-close the client, then accept the next one.
    ShutdownClient,
    /// Relay the flow as raw bytes in a task of its own.
    RelayRaw,
    /// Do the HTTP handshake with the upstream service.
    Handshake,
    /// Run the hook for opening HTTP flows.
    RunOpenHook,
    /// Serve the client's requests in a task of its own.
    ServeHttp,
}

/// The acceptor's next step after an event, for a service that relays
/// HTTP or raw bytes and whose script defines the opening hook or not. No
/// failure stops the acceptor.
pub open spec fn accept_step(http: bool, hooked: bool, event: AcceptEvent) -> AcceptStep {
    match event {
        AcceptEvent::AcceptFailed => AcceptStep::Next,
        AcceptEvent::ConnectFailed => AcceptStep::ShutdownClient,
        AcceptEvent::Connected => if http {
            AcceptStep::Handshake
        } else {
            AcceptStep::RelayRaw
        },
        AcceptEvent::HandshakeFailed => AcceptStep::Next,
        AcceptEvent::HandshakeDone => if hooked {
            AcceptStep::RunOpenHook
        } else {
            AcceptStep::ServeHttp
        },
        AcceptEvent::Opened(verdict) => match verdict {
            ControlFlow::Break(_) => AcceptStep::Next,
            ControlFlow::Continue(_) => AcceptStep::ServeHttp,
        },
    }
}

impl Proxy {
    /// The acceptor's next step after an event. `hooked` says whether the
    /// script defines the hook for opening HTTP flows.
    pub fn handle_accept(&self, event: AcceptEvent, hooked: bool) -> (step: AcceptStep)
        ensures
            step == accept_step(self.service.http_config is Some, hooked, event),
    {
        match event {
            AcceptEvent::AcceptFailed => AcceptStep::Next,
            AcceptEvent::ConnectFailed => AcceptStep::ShutdownClient,
            AcceptEvent::Connected => {
                if self.service.http_config.is_some() {
                    AcceptStep::Handshake
                } else {
                    AcceptStep::RelayRaw
                }
            },
            AcceptEvent::HandshakeFailed => AcceptStep::Next,
            AcceptEvent::HandshakeDone => {
                if hooked {
                    AcceptStep::RunOpenHook
                } else {
                    AcceptStep::ServeHttp
                }
            },
            AcceptEvent::Opened(verdict) => match verdict {
                ControlFlow::Break(_) => AcceptStep::Next,
                ControlFlow::Continue(_) => AcceptStep::ServeHttp,
            },
        }
    }
}

} // verus!
