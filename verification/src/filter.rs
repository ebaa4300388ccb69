//! The scripting hook: which functions a script defines, what their
//! answers do to a flow, and when a changed script is loaded again.

use vstd::prelude::*;
use std::ops::ControlFlow;
use crate::clock::Span;
use crate::clock::Timestamp;
use crate::clock::now;
use crate::edit::ResponseEdit;
use crate::engine::RequestVerdict;
use crate::flow::HttpFlow;
use crate::flow::RawFlow;
use crate::history::RawHistory;
use crate::history::chronological;
use crate::history::replace_last;
use crate::http::HttpRequest;
use crate::http::HttpResponse;
use crate::http::HttpResponseView;
use crate::engine::responses_view;

verus! {

/// How long a changed script is left alone before it is loaded again, in seconds.
pub const INOTIFY_DEBOUNCE_SECS: u64 = 2;

/// The five hooks that a script may define.
#[derive(Clone, Copy, Debug, PartialEq, Eq, Structural)]
pub enum HookKind {
    /// Fired after a request was received and after a response was received.
    HttpFilter,
    /// Fired once, after the upstream HTTP handshake.
    HttpOpen,
    /// Fired after each chunk from the client.
    RawClient,
    /// Fired after each chunk from the server.
    RawServer,
    /// Fired once, when a raw flow starts.
    RawOpen,
}

/// The name under which a script defines a hook.
pub open spec fn hook_name_text(kind: HookKind) -> Seq<char> {
    match kind {
        HookKind::HttpFilter => "http_filter"@,
        HookKind::HttpOpen => "http_open"@,
        HookKind::RawClient => "client_raw_filter"@,
        HookKind::RawServer => "server_raw_filter"@,
        HookKind::RawOpen => "raw_open"@,
    }
}

/// The name under which a script defines a hook.
pub fn hook_name(kind: HookKind) -> (name: &'static str)
    ensures
        name@ == hook_name_text(kind),
{
    match kind {
        HookKind::HttpFilter => "http_filter",
        HookKind::HttpOpen => "http_open",
        HookKind::RawClient => "client_raw_filter",
        HookKind::RawServer => "server_raw_filter",
        HookKind::RawOpen => "raw_open",
    }
}

/// Which hooks a loaded script defines.
#[derive(Clone, Copy, Debug, PartialEq, Eq, Structural)]
pub struct FilterModule {
    pub http_filter: bool,
    pub http_open: bool,
    pub raw_client: bool,
    pub raw_server: bool,
    pub raw_open: bool,
}

impl FilterModule {
    /// Whether the script defines the hook.
    pub open spec fn defines(self, kind: HookKind) -> bool {
        match kind {
            HookKind::HttpFilter => self.http_filter,
            HookKind::HttpOpen => self.http_open,
            HookKind::RawClient => self.raw_client,
            HookKind::RawServer => self.raw_server,
            HookKind::RawOpen => self.raw_open,
        }
    }
}

/// The answer of a hook that runs when a flow opens.
#[derive(Clone, Copy, Debug, PartialEq, Eq, Structural)]
pub enum OpenReply {
    /// Nothing: the flow goes on.
    Leave,
    /// The terminate sentinel.
    Terminate,
    /// The hook raised, or its answer was of no known kind.
    Failed,
}

/// The answer of a hook that was shown a chunk.
pub enum RawReply {
    /// Nothing, or the very chunk it was given: the chunk stays as it is.
    Leave,
    /// Bytes to put in the chunk's place.
    Replace(Vec<u8>),
    /// The terminate sentinel.
    Terminate,
    /// The hook raised, or its answer was of no known kind.
    Failed,
}

/// The answer of a hook that was shown a request or a response.
pub enum HttpReply {
    /// Nothing: the message stays as it is.
    Leave,
    /// A response, as the pieces that the hook set.
    Replace(ResponseEdit),
    /// The terminate sentinel.
    Terminate,
    /// The hook raised, or its answer was of no known kind.
    Failed,
}

/// A loaded script and where it was loaded from.
pub struct Filter {
    pub script_path: String,
    pub module: FilterModule,
}

/// What the answer of an opening hook means for the flow.
pub open spec fn open_verdict(defined: bool, reply: OpenReply) -> ControlFlow<()> {
    if defined && reply == OpenReply::Terminate {
        ControlFlow::Break(())
    } else {
        ControlFlow::Continue(())
    }
}

impl Filter {
    /// A filter for the script at `script_path` that defines the hooks of `module`.
    pub fn new(script_path: String, module: FilterModule) -> (f: Filter)
        ensures
            f.script_path == script_path,
            f.module == module,
    {
        Filter { script_path, module }
    }

    /// Whether the loaded script defines the hook.
    pub fn has(&self, kind: HookKind) -> (r: bool)
        ensures
            r == self.module.defines(kind),
    {
        match kind {
            HookKind::HttpFilter => self.module.http_filter,
            HookKind::HttpOpen => self.module.http_open,
            HookKind::RawClient => self.module.raw_client,
            HookKind::RawServer => self.module.raw_server,
            HookKind::RawOpen => self.module.raw_open,
        }
    }

    /// Takes the outcome of loading the script again: a loaded module
    /// replaces the one in force; a failure leaves it in force. Says
    /// whether the module was replaced.
    pub fn reload(&mut self, loaded: Option<FilterModule>) -> (swapped: bool)
        ensures
            final(self).script_path == old(self).script_path,
            swapped == (loaded is Some),
            final(self).module == (match loaded {
                Some(module) => module,
                None => old(self).module,
            }),
    {
        match loaded {
            Some(module) => {
                self.module = module;
                true
            },
            None => false,
        }
    }

    /// What the answer of the hook for opening raw flows means: only the
    /// terminate sentinel of a defined hook ends the flow.
    pub fn on_raw_open(&self, reply: OpenReply) -> (verdict: ControlFlow<()>)
        ensures
            verdict == open_verdict(self.module.raw_open, reply),
    {
        if self.module.raw_open {
            match reply {
                OpenReply::Terminate => ControlFlow::Break(()),
                _ => ControlFlow::Continue(()),
            }
        } else {
            ControlFlow::Continue(())
        }
    }

    /// What the answer of the hook for opening HTTP flows means: only the
    /// terminate sentinel of a defined hook ends the flow.
    pub fn on_http_open(&self, reply: OpenReply) -> (verdict: ControlFlow<()>)
        ensures
            verdict == open_verdict(self.module.http_open, reply),
    {
        if self.module.http_open {
            match reply {
                OpenReply::Terminate => ControlFlow::Break(()),
                _ => ControlFlow::Continue(()),
            }
        } else {
            ControlFlow::Continue(())
        }
    }

    /// Applies the answer of a chunk hook to the history that the chunk is
    /// in: the terminate sentinel ends the flow; bytes replace the last
    /// chunk, which keeps its time; anything else leaves the history alone.
    /// `at` stamps the chunk if the history had none.
    pub fn apply_raw_chunk_at(reply: RawReply, history: &mut RawHistory, at: Timestamp) -> (verdict:
        ControlFlow<()>)
        requires
            old(history).wf(),
        ensures
            final(history).wf(),
            final(history).max_size == old(history).max_size,
            verdict == (if reply is Terminate {
                ControlFlow::<(), ()>::Break(())
            } else {
                ControlFlow::<(), ()>::Continue(())
            }),
            match reply {
                RawReply::Replace(bytes) => {
                    &&& final(history).bytes@ == old(history).bytes@.subrange(
                        0,
                        old(history).last_start(),
                    ) + bytes@
                    &&& final(history).chunks@ == replace_last(
                        old(history).chunks@,
                        bytes@.len() as int,
                        at,
                    )
                    &&& final(history).last_chunk_view() == bytes@
                },
                _ => {
                    &&& final(history).bytes@ == old(history).bytes@
                    &&& final(history).chunks@ == old(history).chunks@
                },
            },
            chronological(old(history).chunks@) ==> chronological(final(history).chunks@),
    {
        match reply {
            RawReply::Terminate => ControlFlow::Break(()),
            RawReply::Replace(bytes) => {
                history.set_last_chunk_at(bytes.as_slice(), at);
                ControlFlow::Continue(())
            },
            RawReply::Leave => ControlFlow::Continue(()),
            RawReply::Failed => ControlFlow::Continue(()),
        }
    }

    /// Applies the answer of a chunk hook to the history that the chunk is in.
    pub fn apply_raw_chunk(reply: RawReply, history: &mut RawHistory) -> (verdict: ControlFlow<()>)
        requires
            old(history).wf(),
        ensures
            final(history).wf(),
            final(history).max_size == old(history).max_size,
            verdict == (if reply is Terminate {
                ControlFlow::<(), ()>::Break(())
            } else {
                ControlFlow::<(), ()>::Continue(())
            }),
            match reply {
                RawReply::Replace(bytes) => {
                    &&& final(history).bytes@ == old(history).bytes@.subrange(
                        0,
                        old(history).last_start(),
                    ) + bytes@
                    &&& final(history).last_chunk_view() == bytes@
                    &&& exists|at: Timestamp|
                        final(history).chunks@ == replace_last(
                            old(history).chunks@,
                            bytes@.len() as int,
                            at,
                        )
                    &&& final(history).chunks@.len() == (if old(history).chunks@.len() == 0 {
                        1
                    } else {
                        old(history).chunks@.len()
                    })
                    &&& old(history).chunks@.len() > 0 ==> final(history).chunks@.last().timestamp
                        == old(history).chunks@.last().timestamp
                },
                _ => {
                    &&& final(history).bytes@ == old(history).bytes@
                    &&& final(history).chunks@ == old(history).chunks@
                },
            },
    {
        let at = now();
        Filter::apply_raw_chunk_at(reply, history, at)
    }

    /// Applies the answer of the client chunk hook to a raw flow. An
    /// answer counts only if the script defines the hook.
    pub fn on_raw_client(&self, flow: &mut RawFlow, reply: RawReply) -> (verdict: ControlFlow<()>)
        requires
            old(flow).wf(),
        ensures
            final(flow).wf(),
            final(flow).id == old(flow).id,
            final(flow).start == old(flow).start,
            final(flow).client_addr == old(flow).client_addr,
            final(flow).server_addr == old(flow).server_addr,
            final(flow).server_history == old(flow).server_history,
            final(flow).client_history.max_size == old(flow).client_history.max_size,
            verdict == (if self.module.raw_client && reply is Terminate {
                ControlFlow::<(), ()>::Break(())
            } else {
                ControlFlow::<(), ()>::Continue(())
            }),
            match reply {
                RawReply::Replace(bytes) if self.module.raw_client => {
                    &&& final(flow).client_history.bytes@ == old(flow).client_history.bytes@.subrange(
                        0,
                        old(flow).client_history.last_start(),
                    ) + bytes@
                    &&& final(flow).client_history.last_chunk_view() == bytes@
                    &&& exists|at: Timestamp|
                        final(flow).client_history.chunks@ == replace_last(
                            old(flow).client_history.chunks@,
                            bytes@.len() as int,
                            at,
                        )
                    &&& old(flow).client_history.chunks@.len() > 0 ==> final(
                        flow
                    ).client_history.chunks@.last().timestamp == old(
                        flow
                    ).client_history.chunks@.last().timestamp
                },
                _ => {
                    &&& final(flow).client_history.bytes@ == old(flow).client_history.bytes@
                    &&& final(flow).client_history.chunks@ == old(flow).client_history.chunks@
                },
            },
    {
        if self.module.raw_client {
            Filter::apply_raw_chunk(reply, &mut flow.client_history)
        } else {
            ControlFlow::Continue(())
        }
    }

    /// Applies the answer of the server chunk hook to a raw flow. An
    /// answer counts only if the script defines the hook.
    pub fn on_raw_server(&self, flow: &mut RawFlow, reply: RawReply) -> (verdict: ControlFlow<()>)
        requires
            old(flow).wf(),
        ensures
            final(flow).wf(),
            final(flow).id == old(flow).id,
            final(flow).start == old(flow).start,
            final(flow).client_addr == old(flow).client_addr,
            final(flow).server_addr == old(flow).server_addr,
            final(flow).client_history == old(flow).client_history,
            final(flow).server_history.max_size == old(flow).server_history.max_size,
            verdict == (if self.module.raw_server && reply is Terminate {
                ControlFlow::<(), ()>::Break(())
            } else {
                ControlFlow::<(), ()>::Continue(())
            }),
            match reply {
                RawReply::Replace(bytes) if self.module.raw_server => {
                    &&& final(flow).server_history.bytes@ == old(flow).server_history.bytes@.subrange(
                        0,
                        old(flow).server_history.last_start(),
                    ) + bytes@
                    &&& final(flow).server_history.last_chunk_view() == bytes@
                    &&& exists|at: Timestamp|
                        final(flow).server_history.chunks@ == replace_last(
                            old(flow).server_history.chunks@,
                            bytes@.len() as int,
                            at,
                        )
                    &&& old(flow).server_history.chunks@.len() > 0 ==> final(
                        flow
                    ).server_history.chunks@.last().timestamp == old(
                        flow
                    ).server_history.chunks@.last().timestamp
                },
                _ => {
                    &&& final(flow).server_history.bytes@ == old(flow).server_history.bytes@
                    &&& final(flow).server_history.chunks@ == old(flow).server_history.chunks@
                },
            },
    {
        if self.module.raw_server {
            Filter::apply_raw_chunk(reply, &mut flow.server_history)
        } else {
            ControlFlow::Continue(())
        }
    }

    /// The last request of a flow, which the HTTP hook is shown after a
    /// request; nothing if none is recorded.
    pub fn http_request(flow: &HttpFlow) -> (arg: Option<HttpRequest>)
        ensures
            match arg {
                Some(req) => flow.history.requests@.len() > 0 && req@
                    == flow.history.requests@.last().0@,
                None => flow.history.requests@.len() == 0,
            },
    {
        let n = flow.history.requests.len();
        if n > 0 {
            Some(flow.history.requests[n - 1].0.clone())
        } else {
            None
        }
    }

    /// The last request and the last response of a flow, which the HTTP
    /// hook is shown after a response; nothing if either is missing.
    pub fn http_arguments(flow: &HttpFlow) -> (args: Option<(HttpRequest, HttpResponse)>)
        ensures
            match args {
                Some((req, resp)) => {
                    &&& flow.history.requests@.len() > 0
                    &&& flow.history.responses@.len() > 0
                    &&& req@ == flow.history.requests@.last().0@
                    &&& resp@ == flow.history.responses@.last().0@
                },
                None => flow.history.requests@.len() == 0 || flow.history.responses@.len() == 0,
            },
    {
        let n = flow.history.requests.len();
        let m = flow.history.responses.len();
        if n > 0 && m > 0 {
            Some((flow.history.requests[n - 1].0.clone(), flow.history.responses[m - 1].0.clone()))
        } else {
            None
        }
    }

    /// Applies the answer of the HTTP hook after a response: the terminate
    /// sentinel ends the flow; a response that can be put together takes
    /// the place of the last recorded one and keeps its time; anything
    /// else leaves the history alone. An answer counts only if the script
    /// defines the hook.
    pub fn on_http_response(&self, flow: &mut HttpFlow, reply: HttpReply) -> (verdict: ControlFlow<
        (),
    >)
        ensures
            final(flow).id == old(flow).id,
            final(flow).start == old(flow).start,
            final(flow).client_addr == old(flow).client_addr,
            final(flow).server_addr == old(flow).server_addr,
            final(flow).history.requests@ == old(flow).history.requests@,
            final(flow).history.client_size == old(flow).history.client_size,
            final(flow).history.server_size == old(flow).history.server_size,
            final(flow).history.client_max == old(flow).history.client_max,
            final(flow).history.server_max == old(flow).history.server_max,
            verdict == (if self.module.http_filter && reply is Terminate {
                ControlFlow::<(), ()>::Break(())
            } else {
                ControlFlow::<(), ()>::Continue(())
            }),
            final(flow).history.responses@.len() == old(flow).history.responses@.len(),
            responses_view(final(flow).history.responses@) == replaced_responses(
                responses_view(old(flow).history.responses@),
                self.module.http_filter,
                reply,
            ),
    {
        if !self.module.http_filter {
            return ControlFlow::Continue(());
        }
        match reply {
            HttpReply::Terminate => ControlFlow::Break(()),
            HttpReply::Replace(edit) => {
                let ghost before = responses_view(flow.history.responses@);
                let n = flow.history.responses.len();
                if n > 0 {
                    match edit.build() {
                        Ok(resp) => {
                            let at = flow.history.responses[n - 1].1;
                            let ghost view = resp@;
                            flow.history.responses.set(n - 1, (resp, at));
                            assert(responses_view(flow.history.responses@) =~= before.update(
                                n - 1,
                                (view, at),
                            ));
                        },
                        Err(_) => {},
                    }
                }
                ControlFlow::Continue(())
            },
            HttpReply::Leave => ControlFlow::Continue(()),
            HttpReply::Failed => ControlFlow::Continue(()),
        }
    }

    /// What the answer of the HTTP hook after a request means: the
    /// terminate sentinel blocks the request; a response that can be put
    /// together blocks it and is the answer; anything else lets the
    /// request go on. An answer counts only if the script defines the hook.
    pub fn on_http_request(&self, reply: HttpReply) -> (verdict: RequestVerdict)
        ensures
            match reply {
                HttpReply::Terminate if self.module.http_filter => verdict
                    matches RequestVerdict::Block(None),
                HttpReply::Replace(edit) if self.module.http_filter => match edit.outcome() {
                    Ok(view) => verdict matches RequestVerdict::Block(Some(resp)) && resp@ == view,
                    Err(_) => verdict is Continue,
                },
                _ => verdict is Continue,
            },
    {
        if !self.module.http_filter {
            return RequestVerdict::Continue;
        }
        match reply {
            HttpReply::Terminate => RequestVerdict::Block(None),
            HttpReply::Replace(edit) => match edit.build() {
                Ok(resp) => RequestVerdict::Block(Some(resp)),
                Err(_) => RequestVerdict::Continue,
            },
            HttpReply::Leave => RequestVerdict::Continue,
            HttpReply::Failed => RequestVerdict::Continue,
        }
    }
}

/// The recorded responses after the answer of the HTTP hook: a response
/// that can be put together takes the place of the last one and keeps its
/// time, if the script defines the hook and a response is recorded.
pub open spec fn replaced_responses(
    before: Seq<(HttpResponseView, Timestamp)>,
    defined: bool,
    reply: HttpReply,
) -> Seq<(HttpResponseView, Timestamp)> {
    match reply {
        HttpReply::Replace(edit) if defined && before.len() > 0 => match edit.outcome() {
            Ok(view) => before.update(before.len() - 1, (view, before.last().1)),
            Err(_) => before,
        },
        _ => before,
    }
}

/// What the watcher of the script's directory saw.
pub enum WatchEvent {
    /// A file of this name was modified or created.
    Changed(String),
    /// An event that names no file.
    Unnamed,
    /// The event stream reported an error.
    Error,
    /// The event stream ended.
    Closed,
    /// The debounce timer ran out.
    Expired,
}

/// What the watcher does next.
#[derive(Clone, Copy, Debug, PartialEq, Eq, Structural)]
pub enum WatchAction {
    /// Go on waiting, with the timer as it is.
    Idle,
    /// Start the debounce timer anew with this length.
    Arm(Span),
    /// Read and evaluate the script again.
    Reload,
    /// Stop watching.
    Stop,
}

/// The state of the watcher: the file it looks for, and whether a change
/// is waiting for the debounce timer.
pub struct Watcher {
    pub basename: String,
    pub recent: bool,
}

/// The length of the debounce timer.
pub open spec fn debounce() -> Span {
    Span { secs: INOTIFY_DEBOUNCE_SECS, nanos: 0 }
}

/// What the watcher does on an event, with a change waiting or not.
pub open spec fn watch_action(basename: Seq<char>, recent: bool, event: WatchEvent) -> WatchAction {
    match event {
        WatchEvent::Changed(name) => if name@ == basename {
            WatchAction::Arm(debounce())
        } else {
            WatchAction::Idle
        },
        WatchEvent::Unnamed => WatchAction::Idle,
        WatchEvent::Error => WatchAction::Idle,
        WatchEvent::Closed => WatchAction::Stop,
        WatchEvent::Expired => if recent {
            WatchAction::Reload
        } else {
            WatchAction::Idle
        },
    }
}

/// Whether a change is waiting after an event.
pub open spec fn watch_recent(basename: Seq<char>, recent: bool, event: WatchEvent) -> bool {
    match event {
        WatchEvent::Changed(name) => recent || name@ == basename,
        WatchEvent::Expired => false,
        _ => recent,
    }
}

impl Watcher {
    /// A watcher for the file of this name, with no change waiting.
    pub fn new(basename: String) -> (w: Watcher)
        ensures
            w.basename == basename,
            !w.recent,
    {
        Watcher { basename, recent: false }
    }

    /// Takes one event. A change of the watched file arms the timer, or
    /// arms it anew; when the timer runs out after a change the script is
    /// loaded again; other events change nothing.
    pub fn on_event(&mut self, event: &WatchEvent) -> (action: WatchAction)
        ensures
            final(self).basename == old(self).basename,
            action == watch_action(old(self).basename@, old(self).recent, *event),
            final(self).recent == watch_recent(old(self).basename@, old(self).recent, *event),
    {
        match event {
            WatchEvent::Changed(name) => {
                if *name == self.basename {
                    self.recent = true;
                    WatchAction::Arm(Span::from_secs(INOTIFY_DEBOUNCE_SECS))
                } else {
                    WatchAction::Idle
                }
            },
            WatchEvent::Unnamed => WatchAction::Idle,
            WatchEvent::Error => WatchAction::Idle,
            WatchEvent::Closed => WatchAction::Stop,
            WatchEvent::Expired => {
                if self.recent {
                    self.recent = false;
                    WatchAction::Reload
                } else {
                    WatchAction::Idle
                }
            },
        }
    }
}

} // verus!
