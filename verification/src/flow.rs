//! Flows: one accepted client connection with its upstream connection and
//! the traffic recorded on it.

use vstd::prelude::*;
use crate::clock::Timestamp;
use crate::clock::now;
use crate::history::HttpHistory;
use crate::history::RawHistory;

verus! {

/// The identifier of a flow: the 128 bits of a UUID.
#[derive(Clone, Copy, Debug, PartialEq, Eq, Structural)]
pub struct FlowId {
    pub value: u128,
}

/// The version field of the UUID holds 4 and its variant field the two bits `10`.
pub open spec fn is_random_uuid(value: u128) -> bool {
    (value >> 76) & 0xf == 4 && (value >> 62) & 0x3 == 2
}

/// Draws an identifier with `uuid::Uuid::new_v4` and takes its 128 bits. The
/// bits are random but for the version and variant fields, which the crate
/// sets. Where the system gives no random bytes the call does not return.
#[verifier::external_body]
pub(crate) fn fresh_flow_id() -> (id: FlowId)
    ensures
        is_random_uuid(id.value),
{
    FlowId { value: uuid::Uuid::new_v4().as_u128() }
}

/// The address of a host.
#[derive(Clone, Copy, Debug)]
pub enum IpAddress {
    V4([u8; 4]),
    V6([u8; 16]),
}

/// One end of a connection: a host and a port.
#[derive(Clone, Copy, Debug)]
pub struct Endpoint {
    pub ip: IpAddress,
    pub port: u16,
}

/// Which end of a flow a piece of traffic came from.
#[derive(Clone, Copy, Debug, PartialEq, Eq, Structural)]
pub enum Side {
    Client,
    Server,
}

impl Side {
    /// The other end.
    pub open spec fn peer(self) -> Side {
        match self {
            Side::Client => Side::Server,
            Side::Server => Side::Client,
        }
    }

    /// The other end.
    pub fn opposite(&self) -> (s: Side)
        ensures
            s == self.peer(),
    {
        match self {
            Side::Client => Side::Server,
            Side::Server => Side::Client,
        }
    }
}

/// A flow relayed as opaque bytes.
pub struct RawFlow {
    pub id: FlowId,
    pub start: Timestamp,
    pub client_addr: Endpoint,
    pub server_addr: Endpoint,
    pub client_history: RawHistory,
    pub server_history: RawHistory,
}

/// A flow relayed as HTTP/1.1 messages.
pub struct HttpFlow {
    pub id: FlowId,
    pub start: Timestamp,
    pub client_addr: Endpoint,
    pub server_addr: Endpoint,
    pub history: HttpHistory,
}

/// A flow of either kind.
pub enum Flow {
    Raw(RawFlow),
    Http(HttpFlow),
}

/// What every flow can tell of itself.
pub trait IsFlow {
    /// The identifier of the flow.
    spec fn id_of(&self) -> FlowId;

    /// When the client was accepted.
    spec fn start_of(&self) -> Timestamp;

    /// Where the client connected from.
    spec fn client_addr_of(&self) -> Endpoint;

    /// Where the upstream service is.
    spec fn server_addr_of(&self) -> Endpoint;

    /// The identifier of the flow.
    fn get_id(&self) -> (id: FlowId)
        ensures
            id == self.id_of(),
    ;

    /// When the client was accepted.
    fn get_start(&self) -> (start: Timestamp)
        ensures
            start == self.start_of(),
    ;

    /// Where the client connected from.
    fn get_client_addr(&self) -> (addr: Endpoint)
        ensures
            addr == self.client_addr_of(),
    ;

    /// Where the upstream service is.
    fn get_server_addr(&self) -> (addr: Endpoint)
        ensures
            addr == self.server_addr_of(),
    ;
}

impl RawFlow {
    /// Both histories tile their bytes.
    pub open spec fn wf(&self) -> bool {
        self.client_history.wf() && self.server_history.wf()
    }

    /// An empty raw flow with the given identity.
    pub fn with_identity(
        id: FlowId,
        start: Timestamp,
        client_addr: Endpoint,
        client_max_history: usize,
        server_addr: Endpoint,
        server_max_history: usize,
    ) -> (flow: RawFlow)
        ensures
            flow.wf(),
            flow.id == id,
            flow.start == start,
            flow.client_addr == client_addr,
            flow.server_addr == server_addr,
            flow.client_history.bytes@.len() == 0,
            flow.client_history.chunks@.len() == 0,
            flow.client_history.max_size == client_max_history,
            flow.server_history.bytes@.len() == 0,
            flow.server_history.chunks@.len() == 0,
            flow.server_history.max_size == server_max_history,
    {
        RawFlow {
            id,
            start,
            client_addr,
            server_addr,
            client_history: RawHistory::new(client_max_history),
            server_history: RawHistory::new(server_max_history),
        }
    }

    /// An empty raw flow with a fresh identifier, started now.
    pub fn new(
        client_addr: Endpoint,
        client_max_history: usize,
        server_addr: Endpoint,
        server_max_history: usize,
    ) -> (flow: RawFlow)
        ensures
            flow.wf(),
            is_random_uuid(flow.id.value),
            flow.start.secs >= 0,
            flow.start.nanos < 1_000_000_000,
            flow.client_addr == client_addr,
            flow.server_addr == server_addr,
            flow.client_history.bytes@.len() == 0,
            flow.client_history.chunks@.len() == 0,
            flow.client_history.max_size == client_max_history,
            flow.server_history.bytes@.len() == 0,
            flow.server_history.chunks@.len() == 0,
            flow.server_history.max_size == server_max_history,
    {
        RawFlow::with_identity(
            fresh_flow_id(),
            now(),
            client_addr,
            client_max_history,
            server_addr,
            server_max_history,
        )
    }
}

impl HttpFlow {
    /// An empty HTTP flow with the given identity.
    pub fn with_identity(
        id: FlowId,
        start: Timestamp,
        client_addr: Endpoint,
        client_max_history: usize,
        server_addr: Endpoint,
        server_max_history: usize,
    ) -> (flow: HttpFlow)
        ensures
            flow.history.wf(),
            flow.id == id,
            flow.start == start,
            flow.client_addr == client_addr,
            flow.server_addr == server_addr,
            flow.history.requests@.len() == 0,
            flow.history.responses@.len() == 0,
            flow.history.client_size == 0,
            flow.history.server_size == 0,
            flow.history.client_max == client_max_history,
            flow.history.server_max == server_max_history,
    {
        HttpFlow {
            id,
            start,
            client_addr,
            server_addr,
            history: HttpHistory::new(client_max_history, server_max_history),
        }
    }

    /// An empty HTTP flow with a fresh identifier, started now.
    pub fn new(
        client_addr: Endpoint,
        client_max_history: usize,
        server_addr: Endpoint,
        server_max_history: usize,
    ) -> (flow: HttpFlow)
        ensures
            flow.history.wf(),
            is_random_uuid(flow.id.value),
            flow.start.secs >= 0,
            flow.start.nanos < 1_000_000_000,
            flow.client_addr == client_addr,
            flow.server_addr == server_addr,
            flow.history.requests@.len() == 0,
            flow.history.responses@.len() == 0,
            flow.history.client_size == 0,
            flow.history.server_size == 0,
            flow.history.client_max == client_max_history,
            flow.history.server_max == server_max_history,
    {
        HttpFlow::with_identity(
            fresh_flow_id(),
            now(),
            client_addr,
            client_max_history,
            server_addr,
            server_max_history,
        )
    }
}

impl IsFlow for RawFlow {
    open spec fn id_of(&self) -> FlowId {
        self.id
    }

    open spec fn start_of(&self) -> Timestamp {
        self.start
    }

    open spec fn client_addr_of(&self) -> Endpoint {
        self.client_addr
    }

    open spec fn server_addr_of(&self) -> Endpoint {
        self.server_addr
    }

    fn get_id(&self) -> (id: FlowId) {
        assert(self.id_of() == self.id);
        self.id
    }

    fn get_start(&self) -> (start: Timestamp) {
        assert(self.start_of() == self.start);
        self.start
    }

    fn get_client_addr(&self) -> (addr: Endpoint) {
        assert(self.client_addr_of() == self.client_addr);
        self.client_addr
    }

    fn get_server_addr(&self) -> (addr: Endpoint) {
        assert(self.server_addr_of() == self.server_addr);
        self.server_addr
    }
}

impl IsFlow for HttpFlow {
    open spec fn id_of(&self) -> FlowId {
        self.id
    }

    open spec fn start_of(&self) -> Timestamp {
        self.start
    }

    open spec fn client_addr_of(&self) -> Endpoint {
        self.client_addr
    }

    open spec fn server_addr_of(&self) -> Endpoint {
        self.server_addr
    }

    fn get_id(&self) -> (id: FlowId) {
        assert(self.id_of() == self.id);
        self.id
    }

    fn get_start(&self) -> (start: Timestamp) {
        assert(self.start_of() == self.start);
        self.start
    }

    fn get_client_addr(&self) -> (addr: Endpoint) {
        assert(self.client_addr_of() == self.client_addr);
        self.client_addr
    }

    fn get_server_addr(&self) -> (addr: Endpoint) {
        assert(self.server_addr_of() == self.server_addr);
        self.server_addr
    }
}

impl IsFlow for Flow {
    open spec fn id_of(&self) -> FlowId {
        match self {
            Flow::Raw(raw) => raw.id,
            Flow::Http(http) => http.id,
        }
    }

    open spec fn start_of(&self) -> Timestamp {
        match self {
            Flow::Raw(raw) => raw.start,
            Flow::Http(http) => http.start,
        }
    }

    open spec fn client_addr_of(&self) -> Endpoint {
        match self {
            Flow::Raw(raw) => raw.client_addr,
            Flow::Http(http) => http.client_addr,
        }
    }

    open spec fn server_addr_of(&self) -> Endpoint {
        match self {
            Flow::Raw(raw) => raw.server_addr,
            Flow::Http(http) => http.server_addr,
        }
    }

    fn get_id(&self) -> (id: FlowId) {
        match self {
            Flow::Raw(raw) => raw.get_id(),
            Flow::Http(http) => http.get_id(),
        }
    }

    fn get_start(&self) -> (start: Timestamp) {
        match self {
            Flow::Raw(raw) => raw.get_start(),
            Flow::Http(http) => http.get_start(),
        }
    }

    fn get_client_addr(&self) -> (addr: Endpoint) {
        match self {
            Flow::Raw(raw) => raw.get_client_addr(),
            Flow::Http(http) => http.get_client_addr(),
        }
    }

    fn get_server_addr(&self) -> (addr: Endpoint) {
        match self {
            Flow::Raw(raw) => raw.get_server_addr(),
            Flow::Http(http) => http.get_server_addr(),
        }
    }
}

} // verus!
