//! The decisions of the HTTP flow engine for one client connection.

use vstd::prelude::*;
use std::ops::ControlFlow;
use crate::clock::Timestamp;
use crate::clock::now;
use crate::flow::HttpFlow;
use crate::http::HeaderView;
use crate::http::HttpRequest;
use crate::http::HttpRequestView;
use crate::http::HttpResponse;
use crate::http::HttpResponseView;
use crate::http::HttpVersion;
use crate::http::record_headers;
use crate::http::recorded_headers;
use crate::http::clone_headers;
use crate::text::ascii;
use crate::text::copy_bytes;
use crate::text::push_text;

verus! {

/// Why a request on an HTTP flow fails.
#[derive(Clone, Copy, Debug, PartialEq, Eq, Structural)]
pub enum EngineError {
    /// An earlier request on this connection had a body over the ceiling.
    RequestTooBig,
    /// The response's body is over the ceiling.
    ResponseTooBig,
    /// The response hook asked for the end of the flow.
    FilterKilled,
    /// No response is recorded where one is to be served.
    FilterInvalid,
    /// The upstream service did not answer in time.
    ServerTimeout,
    /// The upstream round trip failed.
    Upstream,
    /// The request does not fit under the client side's history ceiling.
    ClientHistory,
    /// The response does not fit under the server side's history ceiling.
    ServerHistory,
}

/// The text that stands for a body over the ceiling, in the recorded
/// message and in the answer to the client.
pub open spec fn too_big_text() -> Seq<u8> {
    ascii("Response body too big"@)
}

/// The body of the answer to a request that a hook blocked.
pub open spec fn killed_text() -> Seq<u8> {
    ascii("Killed by filter"@)
}

impl EngineError {
    /// The message of the error.
    pub open spec fn text(self) -> Seq<char> {
        match self {
            EngineError::RequestTooBig => "Response body too big"@,
            EngineError::ResponseTooBig => "Response body too big"@,
            EngineError::FilterKilled => "Killed by filter"@,
            EngineError::FilterInvalid => "Invalid filter output"@,
            EngineError::ServerTimeout => "Server timeout elapsed"@,
            EngineError::Upstream => "Upstream request failed"@,
            EngineError::ClientHistory => "Client history too big"@,
            EngineError::ServerHistory => "Server history too big"@,
        }
    }

    /// The message of the error.
    pub fn message(&self) -> (m: &'static str)
        ensures
            m@ == self.text(),
    {
        match self {
            EngineError::RequestTooBig => "Response body too big",
            EngineError::ResponseTooBig => "Response body too big",
            EngineError::FilterKilled => "Killed by filter",
            EngineError::FilterInvalid => "Invalid filter output",
            EngineError::ServerTimeout => "Server timeout elapsed",
            EngineError::Upstream => "Upstream request failed",
            EngineError::ClientHistory => "Client history too big",
            EngineError::ServerHistory => "Server history too big",
        }
    }
}

/// What the engine does with a request once its body is known.
pub enum RequestStep {
    /// Answer the client with this response; nothing goes upstream.
    Respond(HttpResponse),
    /// Hand the recorded request to the request hook.
    RunHook,
    /// Send the request upstream.
    Forward,
    /// Fail the request with this error.
    Fail(EngineError),
}

/// What the request hook decided.
pub enum RequestVerdict {
    /// The request goes on.
    Continue,
    /// The request is blocked, with the hook's own response if it gave one.
    Block(Option<HttpResponse>),
}

/// How the upstream round trip ended.
#[derive(Clone, Copy, Debug, PartialEq, Eq, Structural)]
pub enum UpstreamOutcome {
    /// The head of a response arrived.
    Answered,
    /// The round trip failed.
    Failed,
    /// The server timeout elapsed first.
    TimedOut,
}

/// What the engine does with a response once its body is known.
#[derive(Clone, Copy, Debug, PartialEq, Eq, Structural)]
pub enum ResponseStep {
    /// Hand the recorded request and response to the response hook.
    RunHook,
    /// Serve the recorded response to the client.
    Serve,
    /// Fail the request with this error.
    Fail(EngineError),
}

/// The recorded requests as values.
pub open spec fn requests_view(requests: Seq<(HttpRequest, Timestamp)>) -> Seq<
    (HttpRequestView, Timestamp),
> {
    requests.map_values(|entry: (HttpRequest, Timestamp)| (entry.0@, entry.1))
}

/// The recorded responses as values.
pub open spec fn responses_view(responses: Seq<(HttpResponse, Timestamp)>) -> Seq<
    (HttpResponseView, Timestamp),
> {
    responses.map_values(|entry: (HttpResponse, Timestamp)| (entry.0@, entry.1))
}

/// A request as the history keeps it: its length headers are rewritten
/// for a body of `len` bytes.
pub open spec fn kept_request(req: HttpRequestView, len: nat) -> HttpRequestView {
    HttpRequestView {
        method: req.method,
        uri: req.uri,
        version: req.version,
        headers: recorded_headers(req.headers, len),
        body: req.body,
    }
}

/// A response as the history keeps it: its length headers are rewritten
/// for a body of `len` bytes.
pub open spec fn kept_response(resp: HttpResponseView, len: nat) -> HttpResponseView {
    HttpResponseView {
        status: resp.status,
        version: resp.version,
        headers: recorded_headers(resp.headers, len),
        body: resp.body,
    }
}

/// The copy of a request that the history keeps: the head with its
/// length headers rewritten for a body of `body`'s length, and `body`.
pub open spec fn recorded_request(head: HttpRequestView, body: Seq<u8>) -> HttpRequestView {
    HttpRequestView {
        method: head.method,
        uri: head.uri,
        version: head.version,
        headers: recorded_headers(head.headers, body.len()),
        body,
    }
}

/// The copy of a request whose body was over the ceiling: the head with
/// its length headers rewritten for an empty body, and the placeholder text.
pub open spec fn placeholder_request(head: HttpRequestView) -> HttpRequestView {
    HttpRequestView {
        method: head.method,
        uri: head.uri,
        version: head.version,
        headers: recorded_headers(head.headers, 0),
        body: too_big_text(),
    }
}

/// The copy of a response that the history keeps.
pub open spec fn recorded_response(head: HttpResponseView, body: Seq<u8>) -> HttpResponseView {
    HttpResponseView {
        status: head.status,
        version: head.version,
        headers: recorded_headers(head.headers, body.len()),
        body,
    }
}

/// The copy of a response whose body was over the ceiling.
pub open spec fn placeholder_response(head: HttpResponseView) -> HttpResponseView {
    HttpResponseView {
        status: head.status,
        version: head.version,
        headers: recorded_headers(head.headers, 0),
        body: too_big_text(),
    }
}

/// The answer to a request whose body is over the ceiling: status 413.
pub open spec fn too_large_response() -> HttpResponseView {
    HttpResponseView {
        status: 413,
        version: HttpVersion::Http11,
        headers: Seq::<HeaderView>::empty(),
        body: too_big_text(),
    }
}

/// The answer to a request that a hook blocked without a response of its
/// own: status 403.
pub open spec fn forbidden_response() -> HttpResponseView {
    HttpResponseView {
        status: 403,
        version: HttpVersion::Http11,
        headers: Seq::<HeaderView>::empty(),
        body: killed_text(),
    }
}

/// The text that stands for a body over the ceiling.
fn too_big_body() -> (body: Vec<u8>)
    ensures
        body@ == too_big_text(),
{
    proof {
        reveal_strlit("Response body too big");
    }
    let mut body: Vec<u8> = Vec::new();
    push_text(&mut body, "Response body too big");
    assert(body@ =~= too_big_text());
    body
}

/// The body of the answer to a request that a hook blocked.
fn killed_body() -> (body: Vec<u8>)
    ensures
        body@ == killed_text(),
{
    proof {
        reveal_strlit("Killed by filter");
    }
    let mut body: Vec<u8> = Vec::new();
    push_text(&mut body, "Killed by filter");
    assert(body@ =~= killed_text());
    body
}

/// The state of the HTTP engine for one client connection: the flow it
/// records, the body ceiling, and the error latched for the next request.
pub struct ProxyHyper {
    pub max_body: u64,
    pub flow: HttpFlow,
    pub error: Option<EngineError>,
}

/// How the engine stands after a request was recorded at time `at`, and
/// the step that follows. A body over the ceiling leaves a placeholder
/// request and a 413 response, both of size 0, latches the error and
/// answers 413. A body that fits under the client side's ceiling is
/// recorded with its size and goes to the hook or upstream; one that
/// does not fit changes nothing and fails the request.
pub open spec fn request_recorded(
    pre: ProxyHyper,
    post: ProxyHyper,
    head: HttpRequestView,
    body: Option<Vec<u8>>,
    hooked: bool,
    at: Timestamp,
    step: RequestStep,
) -> bool {
    match body {
        None => {
            &&& requests_view(post.flow.history.requests@) == requests_view(
                pre.flow.history.requests@,
            ).push((placeholder_request(head), at))
            &&& responses_view(post.flow.history.responses@) == responses_view(
                pre.flow.history.responses@,
            ).push((too_large_response(), at))
            &&& post.flow.history.client_size == pre.flow.history.client_size
            &&& post.flow.history.server_size == pre.flow.history.server_size
            &&& post.error == Some(EngineError::RequestTooBig)
            &&& step matches RequestStep::Respond(answer) && answer@
                == too_large_response()
        },
        Some(bytes) => {
            &&& post.error == pre.error
            &&& post.flow.history.responses@ == pre.flow.history.responses@
            &&& post.flow.history.server_size == pre.flow.history.server_size
            &&& if bytes@.len() + pre.flow.history.client_size <= pre.flow.history.client_max {
                &&& requests_view(post.flow.history.requests@) == requests_view(
                    pre.flow.history.requests@,
                ).push((recorded_request(head, bytes@), at))
                &&& post.flow.history.client_size == pre.flow.history.client_size + bytes@.len()
                &&& if hooked {
                    step is RunHook
                } else {
                    step is Forward
                }
            } else {
                &&& post.flow.history.requests@ == pre.flow.history.requests@
                &&& post.flow.history.client_size == pre.flow.history.client_size
                &&& step matches RequestStep::Fail(e) && e == EngineError::ClientHistory
            }
        },
    }
}

/// How the engine stands after a response was recorded at time `at`,
/// and the step that follows. A body over the ceiling leaves a
/// placeholder of size 0 and fails the request. A body that fits under
/// the server side's ceiling is recorded with its size and goes to the
/// hook or to the client; one that does not fit changes nothing and
/// fails the request.
pub open spec fn response_recorded(
    pre: ProxyHyper,
    post: ProxyHyper,
    head: HttpResponseView,
    body: Option<Vec<u8>>,
    hooked: bool,
    at: Timestamp,
    step: ResponseStep,
) -> bool {
    &&& post.error == pre.error
    &&& post.flow.history.requests@ == pre.flow.history.requests@
    &&& post.flow.history.client_size == pre.flow.history.client_size
    &&& match body {
        None => {
            &&& responses_view(post.flow.history.responses@) == responses_view(
                pre.flow.history.responses@,
            ).push((placeholder_response(head), at))
            &&& post.flow.history.server_size == pre.flow.history.server_size
            &&& step == ResponseStep::Fail(EngineError::ResponseTooBig)
        },
        Some(bytes) => if bytes@.len() + pre.flow.history.server_size <= pre.flow.history.server_max {
            &&& responses_view(post.flow.history.responses@) == responses_view(
                pre.flow.history.responses@,
            ).push((recorded_response(head, bytes@), at))
            &&& post.flow.history.server_size == pre.flow.history.server_size
                + bytes@.len()
            &&& step == (if hooked {
                ResponseStep::RunHook
            } else {
                ResponseStep::Serve
            })
        } else {
            &&& post.flow.history.responses@ == pre.flow.history.responses@
            &&& post.flow.history.server_size == pre.flow.history.server_size
            &&& step == ResponseStep::Fail(EngineError::ServerHistory)
        },
    }
}

impl ProxyHyper {
    /// The history respects its ceilings and holds no more responses than requests.
    pub open spec fn wf(&self) -> bool {
        &&& self.flow.history.wf()
        &&& self.flow.history.responses@.len() <= self.flow.history.requests@.len()
    }

    /// Everything but the recorded messages, their sizes and the latched
    /// error is as in `before`.
    pub open spec fn same_frame(&self, before: &ProxyHyper) -> bool {
        &&& self.max_body == before.max_body
        &&& self.flow.id == before.flow.id
        &&& self.flow.start == before.flow.start
        &&& self.flow.client_addr == before.flow.client_addr
        &&& self.flow.server_addr == before.flow.server_addr
        &&& self.flow.history.client_max == before.flow.history.client_max
        &&& self.flow.history.server_max == before.flow.history.server_max
    }

    /// The engine for a fresh flow.
    pub fn new(max_body: u64, flow: HttpFlow) -> (engine: ProxyHyper)
        requires
            flow.history.wf(),
            flow.history.responses@.len() <= flow.history.requests@.len(),
        ensures
            engine.wf(),
            engine.max_body == max_body,
            engine.flow == flow,
            engine.error is None,
    {
        ProxyHyper { max_body, flow, error: None }
    }

    /// The recorded flow, once the connection is over.
    pub fn into_flow(self) -> (flow: HttpFlow)
        ensures
            flow == self.flow,
    {
        self.flow
    }

    /// Starts a request: a latched error fails it and is cleared.
    pub fn begin(&mut self) -> (r: Result<(), EngineError>)
        ensures
            final(self).flow == old(self).flow,
            final(self).max_body == old(self).max_body,
            final(self).error is None,
            match r {
                Ok(_) => old(self).error is None,
                Err(e) => old(self).error == Some(e),
            },
    {
        match self.error {
            Some(e) => {
                self.error = None;
                Err(e)
            },
            None => Ok(()),
        }
    }

    /// Keeps a request in the history at time `at`, counted as `len`
    /// bytes, with its length headers rewritten for `len` bytes; fails,
    /// changing nothing, if that many bytes do not fit under the client
    /// side's ceiling.
    pub fn push_request_at(&mut self, req: HttpRequest, len: usize, at: Timestamp) -> (r: Result<
        (),
        EngineError,
    >)
        requires
            old(self).wf(),
        ensures
            final(self).wf(),
            final(self).same_frame(old(self)),
            final(self).error == old(self).error,
            final(self).flow.history.responses@ == old(self).flow.history.responses@,
            final(self).flow.history.server_size == old(self).flow.history.server_size,
            match r {
                Ok(_) => {
                    &&& len + old(self).flow.history.client_size <= old(
                        self,
                    ).flow.history.client_max
                    &&& final(self).flow.history.requests@.len() == old(
                        self,
                    ).flow.history.requests@.len() + 1
                    &&& requests_view(final(self).flow.history.requests@) == requests_view(
                        old(self).flow.history.requests@,
                    ).push((kept_request(req@, len as nat), at))
                    &&& final(self).flow.history.client_size == old(self).flow.history.client_size
                        + len
                },
                Err(e) => {
                    &&& e == EngineError::ClientHistory
                    &&& len + old(self).flow.history.client_size > old(
                        self,
                    ).flow.history.client_max
                    &&& final(self).flow.history.requests@ == old(self).flow.history.requests@
                    &&& final(self).flow.history.client_size == old(self).flow.history.client_size
                },
            },
    {
        let ghost before = requests_view(self.flow.history.requests@);
        let headers = record_headers(&req.headers, len);
        let copy = HttpRequest {
            method: req.method,
            uri: req.uri,
            version: req.version,
            headers,
            body: req.body,
        };
        assert(copy@ == kept_request(req@, len as nat));
        if self.flow.history.push_request_at(copy, len, at) {
            assert(requests_view(self.flow.history.requests@) =~= before.push(
                (kept_request(req@, len as nat), at),
            ));
            Ok(())
        } else {
            Err(EngineError::ClientHistory)
        }
    }

    /// Keeps a response in the history at time `at`, counted as `len`
    /// bytes, with its length headers rewritten for `len` bytes; fails,
    /// changing nothing, if that many bytes do not fit under the server
    /// side's ceiling.
    pub fn push_response_at(&mut self, resp: HttpResponse, len: usize, at: Timestamp) -> (r: Result<
        (),
        EngineError,
    >)
        requires
            old(self).flow.history.wf(),
        ensures
            final(self).flow.history.wf(),
            final(self).same_frame(old(self)),
            final(self).error == old(self).error,
            final(self).flow.history.requests@ == old(self).flow.history.requests@,
            final(self).flow.history.client_size == old(self).flow.history.client_size,
            match r {
                Ok(_) => {
                    &&& len + old(self).flow.history.server_size <= old(
                        self,
                    ).flow.history.server_max
                    &&& final(self).flow.history.responses@.len() == old(
                        self,
                    ).flow.history.responses@.len() + 1
                    &&& responses_view(final(self).flow.history.responses@) == responses_view(
                        old(self).flow.history.responses@,
                    ).push((kept_response(resp@, len as nat), at))
                    &&& final(self).flow.history.server_size == old(self).flow.history.server_size
                        + len
                },
                Err(e) => {
                    &&& e == EngineError::ServerHistory
                    &&& len + old(self).flow.history.server_size > old(
                        self,
                    ).flow.history.server_max
                    &&& final(self).flow.history.responses@ == old(self).flow.history.responses@
                    &&& final(self).flow.history.server_size == old(self).flow.history.server_size
                },
            },
    {
        let ghost before = responses_view(self.flow.history.responses@);
        let headers = record_headers(&resp.headers, len);
        let copy = HttpResponse {
            status: resp.status,
            version: resp.version,
            headers,
            body: resp.body,
        };
        assert(copy@ == kept_response(resp@, len as nat));
        if self.flow.history.push_response_at(copy, len, at) {
            assert(responses_view(self.flow.history.responses@) =~= before.push(
                (kept_response(resp@, len as nat), at),
            ));
            Ok(())
        } else {
            Err(EngineError::ServerHistory)
        }
    }

    /// Records a request and decides what follows. `body` is the collected
    /// body, or nothing if it went over the ceiling. A body over the
    /// ceiling records a placeholder request and a 413 response, both of
    /// size 0, latches the error for the next request and answers 413.
    /// Otherwise the request is recorded with its body's size, if that fits
    /// under the client side's ceiling; it then goes to the hook where
    /// `hooked` says there is one, else upstream.
    pub fn on_request_at(
        &mut self,
        head: &HttpRequest,
        body: Option<Vec<u8>>,
        hooked: bool,
        at: Timestamp,
    ) -> (step: RequestStep)
        requires
            old(self).wf(),
        ensures
            final(self).wf(),
            final(self).same_frame(old(self)),
            request_recorded(*old(self), *final(self), head@, body, hooked, at, step),
    {
        match body {
            None => {
                let copy = HttpRequest {
                    method: copy_bytes(head.method.as_slice()),
                    uri: copy_bytes(head.uri.as_slice()),
                    version: head.version,
                    headers: clone_headers(&head.headers),
                    body: too_big_body(),
                };
                assert(kept_request(copy@, 0) == placeholder_request(head@));
                match self.push_request_at(copy, 0, at) {
                    Ok(_) => {},
                    Err(e) => {
                        return RequestStep::Fail(e);
                    },
                }
                let recorded = HttpResponse::new(413, too_big_body());
                assert(kept_response(recorded@, 0) == too_large_response());
                match self.push_response_at(recorded, 0, at) {
                    Ok(_) => {},
                    Err(e) => {
                        return RequestStep::Fail(e);
                    },
                }
                self.error = Some(EngineError::RequestTooBig);
                RequestStep::Respond(HttpResponse::new(413, too_big_body()))
            },
            Some(bytes) => {
                let len = bytes.len();
                let copy = HttpRequest {
                    method: copy_bytes(head.method.as_slice()),
                    uri: copy_bytes(head.uri.as_slice()),
                    version: head.version,
                    headers: clone_headers(&head.headers),
                    body: bytes,
                };
                assert(kept_request(copy@, len as nat) == recorded_request(head@, bytes@));
                match self.push_request_at(copy, len, at) {
                    Ok(_) => {
                        if hooked {
                            RequestStep::RunHook
                        } else {
                            RequestStep::Forward
                        }
                    },
                    Err(e) => RequestStep::Fail(e),
                }
            },
        }
    }

    /// Records a request now and decides what follows.
    pub fn on_request(&mut self, head: &HttpRequest, body: Option<Vec<u8>>, hooked: bool) -> (step:
        RequestStep)
        requires
            old(self).wf(),
        ensures
            final(self).wf(),
            final(self).same_frame(old(self)),
            exists|at: Timestamp|
                request_recorded(*old(self), *final(self), head@, body, hooked, at, step),
    {
        let at = now();
        self.on_request_at(head, body, hooked, at)
    }

    /// Records a response now and decides what follows.
    pub fn on_response(&mut self, head: &HttpResponse, body: Option<Vec<u8>>, hooked: bool) -> (step:
        ResponseStep)
        requires
            old(self).wf(),
            old(self).flow.history.responses@.len() < old(self).flow.history.requests@.len(),
        ensures
            final(self).wf(),
            final(self).same_frame(old(self)),
            exists|at: Timestamp|
                response_recorded(*old(self), *final(self), head@, body, hooked, at, step),
    {
        let at = now();
        self.on_response_at(head, body, hooked, at)
    }

    /// Decides what follows the request hook: a blocked request is
    /// answered with the hook's response, or with 403 if it gave none;
    /// otherwise the request goes upstream. Nothing is recorded.
    pub fn on_request_hook(&self, verdict: RequestVerdict) -> (step: RequestStep)
        ensures
            match verdict {
                RequestVerdict::Continue => step is Forward,
                RequestVerdict::Block(Some(given)) => step matches RequestStep::Respond(answer)
                    && answer == given,
                RequestVerdict::Block(None) => step matches RequestStep::Respond(answer)
                    && answer@ == forbidden_response(),
            },
    {
        match verdict {
            RequestVerdict::Continue => RequestStep::Forward,
            RequestVerdict::Block(Some(given)) => RequestStep::Respond(given),
            RequestVerdict::Block(None) => RequestStep::Respond(
                HttpResponse::new(403, killed_body()),
            ),
        }
    }

    /// Decides what follows the upstream round trip: a timeout and a
    /// failure fail the request, each with its own error.
    pub fn on_upstream(&self, outcome: UpstreamOutcome) -> (r: Result<(), EngineError>)
        ensures
            r == (match outcome {
                UpstreamOutcome::Answered => Ok::<(), EngineError>(()),
                UpstreamOutcome::Failed => Err::<(), EngineError>(EngineError::Upstream),
                UpstreamOutcome::TimedOut => Err::<(), EngineError>(EngineError::ServerTimeout),
            }),
    {
        match outcome {
            UpstreamOutcome::Answered => Ok(()),
            UpstreamOutcome::Failed => Err(EngineError::Upstream),
            UpstreamOutcome::TimedOut => Err(EngineError::ServerTimeout),
        }
    }

    /// Records a response and decides what follows. `body` is the
    /// collected body, or nothing if it went over the ceiling, which fails
    /// the request after a placeholder of size 0 is recorded. Otherwise
    /// the response is recorded with its body's size, if that fits under the
    /// server side's ceiling; it then goes to the hook where `hooked` says
    /// there is one, else to the client.
    pub fn on_response_at(
        &mut self,
        head: &HttpResponse,
        body: Option<Vec<u8>>,
        hooked: bool,
        at: Timestamp,
    ) -> (step: ResponseStep)
        requires
            old(self).wf(),
            old(self).flow.history.responses@.len() < old(self).flow.history.requests@.len(),
        ensures
            final(self).wf(),
            final(self).same_frame(old(self)),
            response_recorded(*old(self), *final(self), head@, body, hooked, at, step),
    {
        match body {
            None => {
                let copy = HttpResponse {
                    status: head.status,
                    version: head.version,
                    headers: clone_headers(&head.headers),
                    body: too_big_body(),
                };
                assert(kept_response(copy@, 0) == placeholder_response(head@));
                match self.push_response_at(copy, 0, at) {
                    Ok(_) => ResponseStep::Fail(EngineError::ResponseTooBig),
                    Err(e) => ResponseStep::Fail(e),
                }
            },
            Some(bytes) => {
                let len = bytes.len();
                let copy = HttpResponse {
                    status: head.status,
                    version: head.version,
                    headers: clone_headers(&head.headers),
                    body: bytes,
                };
                assert(kept_response(copy@, len as nat) == recorded_response(head@, bytes@));
                match self.push_response_at(copy, len, at) {
                    Ok(_) => {
                        if hooked {
                            ResponseStep::RunHook
                        } else {
                            ResponseStep::Serve
                        }
                    },
                    Err(e) => ResponseStep::Fail(e),
                }
            },
        }
    }

    /// Decides what follows the response hook: the recorded response is
    /// served unless the hook asked for the end of the flow, which fails
    /// the request.
    pub fn on_response_hook(&self, verdict: ControlFlow<()>) -> (step: ResponseStep)
        ensures
            step == (match verdict {
                ControlFlow::Break(_) => ResponseStep::Fail(EngineError::FilterKilled),
                ControlFlow::Continue(_) => ResponseStep::Serve,
            }),
    {
        match verdict {
            ControlFlow::Break(_) => ResponseStep::Fail(EngineError::FilterKilled),
            ControlFlow::Continue(_) => ResponseStep::Serve,
        }
    }

    /// The response to serve to the client: a copy of the last recorded
    /// one, which must exist.
    pub fn serve(&self) -> (r: Result<HttpResponse, EngineError>)
        ensures
            match r {
                Ok(answer) => self.flow.history.responses@.len() > 0 && answer@
                    == self.flow.history.responses@.last().0@,
                Err(e) => e == EngineError::FilterInvalid && self.flow.history.responses@.len()
                    == 0,
            },
    {
        let n = self.flow.history.responses.len();
        if n > 0 {
            Ok(self.flow.history.responses[n - 1].0.clone())
        } else {
            Err(EngineError::FilterInvalid)
        }
    }
}

} // verus!
