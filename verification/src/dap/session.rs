//! The DAP session: sequence numbers, the `initialized` handshake, and the
//! dispatch of each request either to a local answer or to the language
//! back end.
use vstd::prelude::*;

use crate::dap::json::Json;
use crate::dap::protocol::{is_response, respond};
use crate::dap::types::{Body, BreakpointInfo, ProtocolMessage, ThreadInfo};
use crate::python::dap::vars::{PythonVarView, PythonVars};
use crate::text::{concat, owned, str_eq};

verus! {

/// The commands the adapter knows.
#[derive(Clone, Copy, PartialEq, Eq, Structural, Debug)]
pub enum CommandKind {
    Initialize,
    ConfigurationDone,
    SetExceptionBreakpoints,
    SetFunctionBreakpoints,
    Threads,
    SetBreakpoints,
    StackTrace,
    Scopes,
    Variables,
    Continue,
    Next,
    StepIn,
    StepOut,
    Disconnect,
    Unknown,
}

/// Which command a request's `command` names.
pub open spec fn command_kind(c: Seq<char>) -> CommandKind {
    if c == "initialize"@ {
        CommandKind::Initialize
    } else if c == "configurationDone"@ {
        CommandKind::ConfigurationDone
    } else if c == "setExceptionBreakpoints"@ {
        CommandKind::SetExceptionBreakpoints
    } else if c == "setFunctionBreakpoints"@ {
        CommandKind::SetFunctionBreakpoints
    } else if c == "threads"@ {
        CommandKind::Threads
    } else if c == "setBreakpoints"@ {
        CommandKind::SetBreakpoints
    } else if c == "stackTrace"@ {
        CommandKind::StackTrace
    } else if c == "scopes"@ {
        CommandKind::Scopes
    } else if c == "variables"@ {
        CommandKind::Variables
    } else if c == "continue"@ {
        CommandKind::Continue
    } else if c == "next"@ {
        CommandKind::Next
    } else if c == "stepIn"@ {
        CommandKind::StepIn
    } else if c == "stepOut"@ {
        CommandKind::StepOut
    } else if c == "disconnect"@ {
        CommandKind::Disconnect
    } else {
        CommandKind::Unknown
    }
}

/// Which command `c` names.
pub fn classify_command(c: &str) -> (r: CommandKind)
    ensures
        r == command_kind(c@),
{
    if str_eq(c, "initialize") {
        CommandKind::Initialize
    } else if str_eq(c, "configurationDone") {
        CommandKind::ConfigurationDone
    } else if str_eq(c, "setExceptionBreakpoints") {
        CommandKind::SetExceptionBreakpoints
    } else if str_eq(c, "setFunctionBreakpoints") {
        CommandKind::SetFunctionBreakpoints
    } else if str_eq(c, "threads") {
        CommandKind::Threads
    } else if str_eq(c, "setBreakpoints") {
        CommandKind::SetBreakpoints
    } else if str_eq(c, "stackTrace") {
        CommandKind::StackTrace
    } else if str_eq(c, "scopes") {
        CommandKind::Scopes
    } else if str_eq(c, "variables") {
        CommandKind::Variables
    } else if str_eq(c, "continue") {
        CommandKind::Continue
    } else if str_eq(c, "next") {
        CommandKind::Next
    } else if str_eq(c, "stepIn") {
        CommandKind::StepIn
    } else if str_eq(c, "stepOut") {
        CommandKind::StepOut
    } else if str_eq(c, "disconnect") {
        CommandKind::Disconnect
    } else {
        CommandKind::Unknown
    }
}

/// Whether the command invalidates the variable handles of the last stop.
pub open spec fn clears_handles(k: CommandKind) -> bool {
    k == CommandKind::ConfigurationDone || k == CommandKind::Continue || k == CommandKind::Next
        || k == CommandKind::StepIn || k == CommandKind::StepOut
}

/// Whether the command is answered by the language back end.
pub open spec fn needs_backend(k: CommandKind) -> bool {
    clears_handles(k) || k == CommandKind::SetBreakpoints || k == CommandKind::StackTrace || k
        == CommandKind::Scopes || k == CommandKind::Variables
}

/// The `source.path` argument of `setBreakpoints`, `""` when missing.
pub open spec fn breakpoint_source(args: Json) -> Seq<char> {
    match args.spec_get("source"@) {
        Some(s) => match s.spec_get("path"@) {
            Some(p) => match p.spec_as_str() {
                Some(t) => t,
                None => Seq::empty(),
            },
            None => Seq::empty(),
        },
        None => Seq::empty(),
    }
}

/// The `line` of each entry of a `breakpoints` array that has an integer
/// line, in order.
pub open spec fn lines_of(entries: Seq<Json>) -> Seq<i64>
    decreases entries.len(),
{
    if entries.len() == 0 {
        Seq::empty()
    } else {
        let rest = lines_of(entries.drop_last());
        match entries.last().spec_get("line"@) {
            Some(l) => match l.spec_as_i64() {
                Some(n) => rest.push(n),
                None => rest,
            },
            None => rest,
        }
    }
}

/// The lines asked for by `setBreakpoints`, none when missing.
pub open spec fn breakpoint_request_lines(args: Json) -> Seq<i64> {
    match args.spec_get("breakpoints"@) {
        Some(b) => match b.spec_as_array() {
            Some(entries) => lines_of(entries),
            None => Seq::empty(),
        },
        None => Seq::empty(),
    }
}

/// The body of a response.
pub open spec fn response_body(m: ProtocolMessage) -> Option<Body> {
    match m {
        ProtocolMessage::Response { body, .. } => body,
        _ => None,
    }
}

/// Whether `m` answers `request_seq` with number `seq` for `command`,
/// whatever its outcome.
pub open spec fn answers(m: ProtocolMessage, seq: int, request_seq: i64, command: Seq<char>) -> bool {
    match m {
        ProtocolMessage::Response { seq: s, request_seq: q, command: c, .. } => s == seq && q
            == request_seq && c@ == command,
        _ => false,
    }
}

/// Whether `m` is a successful answer with no message.
pub open spec fn succeeded(m: ProtocolMessage) -> bool {
    match m {
        ProtocolMessage::Response { success, message, .. } => success && message is None,
        _ => false,
    }
}

/// Whether `m` is the event numbered `seq` named `name` with body `body`.
pub open spec fn is_event(m: ProtocolMessage, seq: int, name: Seq<char>, body: Option<Body>) -> bool {
    match m {
        ProtocolMessage::Event { seq: s, event, body: b } => s == seq && event@ == name && b == body,
        _ => false,
    }
}

/// Whether `m` is a failed answer with message `text` and no body.
pub open spec fn failed_with(m: ProtocolMessage, text: Seq<char>) -> bool {
    match m {
        ProtocolMessage::Response { success, message, body, .. } => !success && body is None
            && match message {
            Some(x) => x@ == text,
            None => false,
        },
        _ => false,
    }
}

/// Whether `b` is a `setBreakpoints`-shaped body with no entries.
pub open spec fn no_breakpoints(b: Option<Body>) -> bool {
    match b {
        Some(Body::Breakpoints(v)) => v@.len() == 0,
        _ => false,
    }
}

/// Whether `b` lists the single thread `1`, named `main`.
pub open spec fn single_main_thread(b: Option<Body>) -> bool {
    match b {
        Some(Body::Threads(ts)) => ts@.len() == 1 && ts@[0].id == 1 && ts@[0].name@ == "main"@,
        _ => false,
    }
}

/// The capabilities answered to `initialize`.
pub open spec fn capabilities() -> Body {
    Body::Capabilities {
        supports_configuration_done_request: true,
        supports_step_back: false,
        supports_function_breakpoints: false,
    }
}

/// Work that the language back end must do to answer a request.
#[derive(Debug)]
pub enum BackendCall {
    ConfigurationDone,
    SetBreakpoints { source: String, lines: Vec<i64> },
    StackTrace,
    Scopes,
    Variables,
    Continue,
    Next,
    StepIn,
    StepOut,
}

/// The back end call that answers a command.
pub open spec fn call_matches(call: BackendCall, k: CommandKind, args: Json) -> bool {
    match call {
        BackendCall::ConfigurationDone => k == CommandKind::ConfigurationDone,
        BackendCall::SetBreakpoints { source, lines } => k == CommandKind::SetBreakpoints
            && source@ == breakpoint_source(args) && lines@ == breakpoint_request_lines(args),
        BackendCall::StackTrace => k == CommandKind::StackTrace,
        BackendCall::Scopes => k == CommandKind::Scopes,
        BackendCall::Variables => k == CommandKind::Variables,
        BackendCall::Continue => k == CommandKind::Continue,
        BackendCall::Next => k == CommandKind::Next,
        BackendCall::StepIn => k == CommandKind::StepIn,
        BackendCall::StepOut => k == CommandKind::StepOut,
    }
}

/// A request waiting for the back end's answer; its response number is
/// already taken.
#[derive(Debug)]
pub struct PendingRequest {
    pub response_seq: i64,
    pub request_seq: i64,
    pub command: String,
}

impl PendingRequest {
    /// The response to the request, from what the back end answered.
    pub fn complete(self, result: Result<Option<Body>, String>) -> (r: ProtocolMessage)
        ensures
            is_response(r, self.response_seq, self.request_seq, self.command@, result),
    {
        respond(self.response_seq, self.request_seq, self.command.as_str(), result)
    }
}

/// What to do with a request.
#[derive(Debug)]
pub enum Dispatch {
    /// The request is answered; `initialized` is the event to send after
    /// the response, if the handshake completed with it.
    Reply { response: ProtocolMessage, initialized: Option<ProtocolMessage> },
    /// The back end must do `call`; its result completes `pending`.
    Call { pending: PendingRequest, call: BackendCall },
}

/// Shared DAP protocol state.  Language back ends only supply response
/// bodies; the session owns sequence numbers, event numbering, and the
/// wrapping of responses.
pub struct DapSession<D> {
    seq_counter: i64,
    debugger: Option<D>,
    client_initialized: bool,
    initialized_emitted: bool,
    vars: PythonVars,
}

impl<D> DapSession<D> {
    /// The number given to the last message sent (`0` before the first).
    pub closed spec fn last_seq(self) -> i64 {
        self.seq_counter
    }

    /// The back end attached, if any.
    pub closed spec fn debugger(self) -> Option<D> {
        self.debugger
    }

    /// Whether the client has sent `initialize`.
    pub closed spec fn client_initialized(self) -> bool {
        self.client_initialized
    }

    /// Whether the `initialized` event was sent in this run.
    pub closed spec fn initialized_emitted(self) -> bool {
        self.initialized_emitted
    }

    /// The variable handles of the current stop.
    pub closed spec fn vars(self) -> PythonVars {
        self.vars
    }

    /// A session with no back end, before `initialize`.
    pub fn new() -> (r: Self)
        ensures
            r.last_seq() == 0,
            r.debugger() is None,
            !r.client_initialized(),
            !r.initialized_emitted(),
            r.vars().last_ref() == 0,
            r.vars().table() == Map::<i64, Seq<PythonVarView>>::empty(),
    {
        let r = DapSession {
            seq_counter: 0,
            debugger: None,
            client_initialized: false,
            initialized_emitted: false,
            vars: PythonVars::new(),
        };
        r
    }

    /// The number of the last message sent (`0` before the first).
    pub fn last_seq_number(&self) -> (r: i64)
        ensures
            r == self.last_seq(),
    {
        self.seq_counter
    }

    /// Attaches a language back end.
    pub fn set_debugger(&mut self, debugger: D)
        ensures
            final(self).debugger() == Some(debugger),
            final(self).last_seq() == old(self).last_seq(),
            final(self).client_initialized() == old(self).client_initialized(),
            final(self).initialized_emitted() == old(self).initialized_emitted(),
            final(self).vars() == old(self).vars(),
    {
        self.debugger = Some(debugger);
    }

    /// Starts a new run: drops the back end, and lets the handshake send
    /// `initialized` again.
    pub fn reset_run(&mut self)
        ensures
            final(self).debugger() is None,
            !final(self).initialized_emitted(),
            final(self).last_seq() == old(self).last_seq(),
            final(self).client_initialized() == old(self).client_initialized(),
            final(self).vars() == old(self).vars(),
    {
        self.debugger = None;
        self.initialized_emitted = false;
    }

    /// The back end, if one is attached.
    pub fn debugger_mut(&mut self) -> (r: Option<&mut D>)
        ensures
            old(self).debugger() is None ==> r is None && *final(self) == *old(self),
            old(self).debugger() is Some ==> r is Some && *r->0 == old(self).debugger()->0
                && final(self).debugger() == Some(*final(r->0)) && final(self).last_seq() == old(self).last_seq()
                && final(self).client_initialized() == old(self).client_initialized()
                && final(self).initialized_emitted() == old(self).initialized_emitted()
                && final(self).vars() == old(self).vars(),
    {
        self.debugger.as_mut()
    }

    /// The back end together with the variable handles, which the Python
    /// back end's `scopes` and `variables` fill.
    pub fn backend_mut(&mut self) -> (r: Option<(&mut D, &mut PythonVars)>)
        ensures
            r is Some <==> old(self).debugger() is Some,
            r matches Some(p) ==> *p.0 == old(self).debugger()->0 && *p.1 == old(self).vars()
                && final(self).debugger() == Some(*final(p.0)) && final(self).vars() == *final(p.1) && final(self).last_seq() == old(self).last_seq() && final(self).client_initialized() == old(self).client_initialized() && final(self).initialized_emitted() == old(self).initialized_emitted(),
            r is None ==> *final(self) == *old(self),
    {
        match &mut self.debugger {
            Some(d) => Some((d, &mut self.vars)),
            None => None,
        }
    }

    fn next_seq(&mut self) -> (r: i64)
        requires
            old(self).last_seq() < i64::MAX,
        ensures
            r == old(self).last_seq() + 1,
            final(self).last_seq() == r,
            final(self).debugger() == old(self).debugger(),
            final(self).client_initialized() == old(self).client_initialized(),
            final(self).initialized_emitted() == old(self).initialized_emitted(),
            final(self).vars() == old(self).vars(),
    {
        self.seq_counter = self.seq_counter + 1;
        self.seq_counter
    }

    /// The event `event_name`, numbered with the next sequence number.
    pub fn emit_event(&mut self, event_name: &str, body: Option<Body>) -> (r: ProtocolMessage)
        requires
            old(self).last_seq() < i64::MAX,
        ensures
            is_event(r, old(self).last_seq() + 1, event_name@, body),
            final(self).last_seq() == old(self).last_seq() + 1,
            final(self).debugger() == old(self).debugger(),
            final(self).client_initialized() == old(self).client_initialized(),
            final(self).initialized_emitted() == old(self).initialized_emitted(),
            final(self).vars() == old(self).vars(),
    {
        let seq = self.next_seq();
        ProtocolMessage::Event { seq, event: owned(event_name), body }
    }

    /// The `terminated` event sent when the program ends.
    pub fn emit_terminated(&mut self) -> (r: ProtocolMessage)
        requires
            old(self).last_seq() < i64::MAX,
        ensures
            is_event(
                r,
                old(self).last_seq() + 1,
                "terminated"@,
                Some(Body::Terminated { restart: false }),
            ),
            final(self).last_seq() == old(self).last_seq() + 1,
            final(self).debugger() == old(self).debugger(),
            final(self).client_initialized() == old(self).client_initialized(),
            final(self).initialized_emitted() == old(self).initialized_emitted(),
            final(self).vars() == old(self).vars(),
    {
        self.emit_event("terminated", Some(Body::Terminated { restart: false }))
    }

    /// The `stopped` event for a pause, with the body the back end built.
    pub fn emit_stopped(&mut self, body: Body) -> (r: ProtocolMessage)
        requires
            old(self).last_seq() < i64::MAX,
        ensures
            is_event(r, old(self).last_seq() + 1, "stopped"@, Some(body)),
            final(self).last_seq() == old(self).last_seq() + 1,
            final(self).debugger() == old(self).debugger(),
            final(self).client_initialized() == old(self).client_initialized(),
            final(self).initialized_emitted() == old(self).initialized_emitted(),
            final(self).vars() == old(self).vars(),
    {
        self.emit_event("stopped", Some(body))
    }

    /// DAP: the `initialized` event, once `initialize` was handled and a
    /// back end is attached, and only once per run.
    pub fn try_emit_initialized(&mut self) -> (r: Option<ProtocolMessage>)
        requires
            old(self).last_seq() < i64::MAX,
        ensures
            initialized_step(*old(self), *final(self), r),
    {
        if self.client_initialized && self.debugger.is_some() && !self.initialized_emitted {
            self.initialized_emitted = true;
            Some(self.emit_event("initialized", None))
        } else {
            None
        }
    }
}


/// What `process_request` does with request `request_seq` for `command`
/// with arguments `args`, from session `before` to `after`, answering `r`.
pub open spec fn request_answered<D>(
    before: DapSession<D>,
    after: DapSession<D>,
    request_seq: i64,
    command: Seq<char>,
    args: Json,
    r: Dispatch,
) -> bool {
    let k = command_kind(command);
    let rseq = before.last_seq() + 1;
    &&& after.debugger() == before.debugger()
    &&& after.client_initialized() == (before.client_initialized() || k
        == CommandKind::Initialize)
    &&& clears_handles(k) ==> after.vars().last_ref() == 0 && after.vars().table() == Map::<i64, Seq<PythonVarView>>::empty()
    &&& !clears_handles(k) ==> after.vars() == before.vars()
    &&& k != CommandKind::Initialize ==> after.last_seq() == rseq && after.initialized_emitted() == before.initialized_emitted()
    &&& needs_backend(k) && before.debugger() is Some ==> match r {
        Dispatch::Call { pending, call } => pending.response_seq == rseq
            && pending.request_seq == request_seq && pending.command@ == command
            && call_matches(call, k, args),
        _ => false,
    }
    &&& needs_backend(k) && before.debugger() is None ==> match r {
        Dispatch::Reply { response, initialized } => initialized is None && answers(
            response,
            rseq,
            request_seq,
            command,
        ) && failed_with(
            response,
            if k == CommandKind::ConfigurationDone {
                "configurationDone: debugger not ready"@
            } else {
                "No debugger attached"@
            },
        ),
        _ => false,
    }
    &&& !needs_backend(k) ==> match r {
        Dispatch::Reply { response, initialized } => {
            &&& answers(response, rseq, request_seq, command)
            &&& k == CommandKind::Initialize ==> {
                &&& succeeded(response)
                &&& response_body(response) == Some(capabilities())
                &&& !before.initialized_emitted() && before.debugger() is Some
                    ==> initialized is Some && is_event(
                    initialized->0,
                    rseq + 1,
                    "initialized"@,
                    None,
                ) && after.initialized_emitted() && after.last_seq()
                    == rseq + 1
                &&& !(!before.initialized_emitted() && before.debugger() is Some)
                    ==> initialized is None && after.initialized_emitted()
                    == before.initialized_emitted() && after.last_seq()
                    == rseq
            }
            &&& k != CommandKind::Initialize ==> initialized is None
            &&& (k == CommandKind::SetExceptionBreakpoints || k
                == CommandKind::SetFunctionBreakpoints) ==> succeeded(response)
                && no_breakpoints(response_body(response))
            &&& k == CommandKind::Threads ==> succeeded(response)
                && single_main_thread(response_body(response))
            &&& k == CommandKind::Disconnect ==> succeeded(response) && response_body(
                response,
            ) is None
            &&& k == CommandKind::Unknown ==> failed_with(
                response,
                "Unknown command: "@ + command,
            )
        },
        _ => false,
    }
}

/// The arguments a request is answered with: its own, or `null` when it
/// has none.
pub open spec fn request_args(arguments: Option<Json>) -> Json {
    match arguments {
        Some(a) => a,
        None => Json::Null,
    }
}

/// The number a dispatch's response carries (or will carry).
pub open spec fn dispatch_seq(d: Dispatch) -> int {
    match d {
        Dispatch::Reply { response, .. } => match response {
            ProtocolMessage::Response { seq, .. } => seq as int,
            _ => -1,
        },
        Dispatch::Call { pending, .. } => pending.response_seq as int,
    }
}

/// What `try_emit_initialized` does from session `before` to `after`,
/// answering `r`: the `initialized` event, numbered next, exactly when the
/// client has sent `initialize`, a back end is attached and none was sent
/// in this run; nothing otherwise.
pub open spec fn initialized_step<D>(before: DapSession<D>, after: DapSession<D>, r: Option<ProtocolMessage>) -> bool {
    &&& ({
            let due = before.client_initialized() && before.debugger() is Some && !before.initialized_emitted();
            &&& due ==> r is Some && is_event(
                r->0,
                before.last_seq() + 1,
                "initialized"@,
                None,
            ) && after.initialized_emitted() && after.last_seq() == before.last_seq() + 1
            &&& !due ==> r is None && after.initialized_emitted() == before.initialized_emitted() && after.last_seq() == before.last_seq()
        })
    &&& after.debugger() == before.debugger()
    &&& after.client_initialized() == before.client_initialized()
    &&& after.vars() == before.vars()
}

/// Law of the handshake: `initialized` is sent at most once per run.  In a
/// run where it was already sent, `try_emit_initialized` sends nothing.
pub proof fn law_initialized_at_most_once<D>(before: DapSession<D>, after: DapSession<D>, r: Option<ProtocolMessage>)
    requires
        before.initialized_emitted(),
        initialized_step(before, after, r),
    ensures
        r is None,
        after.initialized_emitted(),
        after.last_seq() == before.last_seq(),
{
}

/// Law of the handshake: whichever of `initialize` and the back end's
/// attachment comes last, the next `try_emit_initialized` sends the event,
/// unless this run already did.
pub proof fn law_initialized_once_both<D>(before: DapSession<D>, after: DapSession<D>, r: Option<ProtocolMessage>)
    requires
        before.client_initialized(),
        before.debugger() is Some,
        !before.initialized_emitted(),
        initialized_step(before, after, r),
    ensures
        r matches Some(m) && is_event(m, before.last_seq() + 1, "initialized"@, None),
        after.initialized_emitted(),
{
}

/// Law of the responses: two requests processed one after the other, the
/// first not `initialize` (which may send an event in between), are
/// answered with consecutive numbers, each to its own request.
pub proof fn law_responses_numbered_in_order<D>(
    s0: DapSession<D>,
    s1: DapSession<D>,
    s2: DapSession<D>,
    q1: i64,
    c1: Seq<char>,
    a1: Json,
    r1: Dispatch,
    q2: i64,
    c2: Seq<char>,
    a2: Json,
    r2: Dispatch,
)
    requires
        command_kind(c1) != CommandKind::Initialize,
        request_answered(s0, s1, q1, c1, a1, r1),
        request_answered(s1, s2, q2, c2, a2, r2),
    ensures
        dispatch_seq(r1) == s0.last_seq() + 1,
        dispatch_seq(r2) == dispatch_seq(r1) + 1,
{
}

/// Reads the `source.path` and the breakpoint lines of a `setBreakpoints`
/// request.
fn breakpoint_args(args: &Json) -> (r: (String, Vec<i64>))
    ensures
        r.0@ == breakpoint_source(*args),
        r.1@ == breakpoint_request_lines(*args),
{
    proof {
        reveal_strlit("source");
        reveal_strlit("path");
        reveal_strlit("breakpoints");
        reveal_strlit("line");
        reveal_strlit("");
    }
    let source = match args.get("source") {
        Some(s) => match s.get("path") {
            Some(p) => match p.as_str() {
                Some(t) => owned(t),
                None => owned(""),
            },
            None => owned(""),
        },
        None => owned(""),
    };
    let mut lines: Vec<i64> = Vec::new();
    match args.get("breakpoints") {
        Some(b) => match b.as_array() {
            Some(entries) => {
                let mut i: usize = 0;
                while i < entries.len()
                    invariant
                        i <= entries@.len(),
                        lines@ == lines_of(entries@.take(i as int)),
                    decreases entries.len() - i,
                {
                    assert(entries@.take(i + 1).drop_last() =~= entries@.take(i as int));
                    match entries[i].get("line") {
                        Some(l) => match l.as_i64() {
                            Some(n) => lines.push(n),
                            None => {},
                        },
                        None => {},
                    }
                    i = i + 1;
                }
                assert(entries@.take(entries@.len() as int) =~= entries@);
            },
            None => {},
        },
        None => {},
    }
    (source, lines)
}

impl<D> DapSession<D> {
    /// Handles one request: either answers it at once, or says which call
    /// the back end must make to answer it.  The response number is taken
    /// now in both cases; the commands that resume the program drop the
    /// variable handles of the last stop.
    pub fn process_request(&mut self, request_seq: i64, command: &str, args: &Json) -> (r:
        Dispatch)
        requires
            old(self).last_seq() < i64::MAX,
            command_kind(command@) == CommandKind::Initialize ==> old(self).last_seq() < i64::MAX
                - 1,
        ensures
            request_answered(*old(self), *final(self), request_seq, command@, *args, r),
    {
        let response_seq = self.next_seq();
        let kind = classify_command(command);
        proof {
            reveal_strlit("main");
            reveal_strlit("No debugger attached");
            reveal_strlit("configurationDone: debugger not ready");
        }
        match kind {
            CommandKind::Initialize => {
                self.client_initialized = true;
                let response = respond(
                    response_seq,
                    request_seq,
                    command,
                    Ok(
                        Some(
                            Body::Capabilities {
                                supports_configuration_done_request: true,
                                supports_step_back: false,
                                supports_function_breakpoints: false,
                            },
                        ),
                    ),
                );
                let initialized = self.try_emit_initialized();
                Dispatch::Reply { response, initialized }
            },
            CommandKind::SetExceptionBreakpoints | CommandKind::SetFunctionBreakpoints => {
                let bps: Vec<BreakpointInfo> = Vec::new();
                let response = respond(
                    response_seq,
                    request_seq,
                    command,
                    Ok(Some(Body::Breakpoints(bps))),
                );
                Dispatch::Reply { response, initialized: None }
            },
            CommandKind::Threads => {
                let mut ts: Vec<ThreadInfo> = Vec::new();
                ts.push(ThreadInfo { id: 1, name: owned("main") });
                let response = respond(
                    response_seq,
                    request_seq,
                    command,
                    Ok(Some(Body::Threads(ts))),
                );
                Dispatch::Reply { response, initialized: None }
            },
            CommandKind::Disconnect => {
                let response = respond(response_seq, request_seq, command, Ok(None));
                Dispatch::Reply { response, initialized: None }
            },
            CommandKind::Unknown => {
                let message = concat("Unknown command: ", command);
                let response = respond(response_seq, request_seq, command, Err(message));
                Dispatch::Reply { response, initialized: None }
            },
            _ => {
                if kind == CommandKind::ConfigurationDone || kind == CommandKind::Continue || kind
                    == CommandKind::Next || kind == CommandKind::StepIn || kind
                    == CommandKind::StepOut {
                    self.vars.clear();
                }
                if self.debugger.is_none() {
                    let message = if kind == CommandKind::ConfigurationDone {
                        owned("configurationDone: debugger not ready")
                    } else {
                        owned("No debugger attached")
                    };
                    let response = respond(response_seq, request_seq, command, Err(message));
                    return Dispatch::Reply { response, initialized: None };
                }
                let call = match kind {
                    CommandKind::ConfigurationDone => BackendCall::ConfigurationDone,
                    CommandKind::SetBreakpoints => {
                        let (source, lines) = breakpoint_args(args);
                        BackendCall::SetBreakpoints { source, lines }
                    },
                    CommandKind::StackTrace => BackendCall::StackTrace,
                    CommandKind::Scopes => BackendCall::Scopes,
                    CommandKind::Variables => BackendCall::Variables,
                    CommandKind::Continue => BackendCall::Continue,
                    CommandKind::Next => BackendCall::Next,
                    CommandKind::StepIn => BackendCall::StepIn,
                    _ => BackendCall::StepOut,
                };
                Dispatch::Call {
                    pending: PendingRequest {
                        response_seq,
                        request_seq,
                        command: owned(command),
                    },
                    call,
                }
            },
        }
    }

    /// Handles one incoming message: requests are dispatched with their
    /// arguments (`null` when absent); other messages are ignored.
    pub fn handle_message(&mut self, msg: &ProtocolMessage) -> (r: Option<Dispatch>)
        requires
            msg matches ProtocolMessage::Request { command, .. } ==> old(self).last_seq()
                < i64::MAX && (command_kind(command@) == CommandKind::Initialize ==> old(
                self).last_seq() < i64::MAX - 1),
        ensures
            msg is Request <==> r is Some,
            !(msg is Request) ==> *final(self) == *old(self),
            msg matches ProtocolMessage::Request { seq, command, arguments } ==> r matches Some(d)
                && request_answered(*old(self), *final(self), *seq, command@, request_args(*arguments), d),
    {
        match msg {
            ProtocolMessage::Request { seq, command, arguments } => match arguments {
                Some(a) => Some(self.process_request(*seq, command.as_str(), a)),
                None => Some(self.process_request(*seq, command.as_str(), &Json::Null)),
            },
            _ => None,
        }
    }
}

} // verus!
