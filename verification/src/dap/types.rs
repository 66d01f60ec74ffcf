//! DAP messages and the bodies the adapter answers with.
use vstd::prelude::*;

use crate::dap::json::Json;

verus! {

/// The `usize` argument `name`, if present as a non-negative integer that
/// fits in `usize`.
pub open spec fn spec_usize_arg(args: Json, name: Seq<char>) -> Option<usize> {
    match args.spec_get(name) {
        Some(v) => match v.spec_as_u64() {
            Some(u) => if u <= usize::MAX {
                Some(u as usize)
            } else {
                None
            },
            None => None,
        },
        None => None,
    }
}

/// The first index of the window `start`/`count` over `len` items.
pub open spec fn window_start(start: Option<usize>, len: usize) -> int {
    let s: int = match start {
        Some(s) => s as int,
        None => 0,
    };
    if s < len {
        s
    } else {
        len as int
    }
}

/// One past the last index of the window `start`/`count` over `len` items.
pub open spec fn window_end(start: Option<usize>, count: Option<usize>, len: usize) -> int {
    match count {
        Some(c) => {
            let e = window_start(start, len) + c;
            if e < len {
                e
            } else {
                len as int
            }
        },
        None => len as int,
    }
}

fn usize_arg(args: &Json, name: &str) -> (r: Option<usize>)
    ensures
        r == spec_usize_arg(*args, name@),
{
    match args.get(name) {
        Some(v) => match v.as_u64() {
            Some(u) => if u <= usize::MAX as u64 {
                Some(u as usize)
            } else {
                None
            },
            None => None,
        },
        None => None,
    }
}

/// The `start`/`count` window of a DAP `variables` request, clamped to `len`.
///
/// A missing `start` is `0`; a missing `count` reaches the end; both are
/// cut back to `len`, so that `start <= end <= len`.
pub fn requested_range(args: &Json, len: usize) -> (r: std::ops::Range<usize>)
    ensures
        r.start == window_start(spec_usize_arg(*args, "start"@), len),
        r.end == window_end(
            spec_usize_arg(*args, "start"@),
            spec_usize_arg(*args, "count"@),
            len,
        ),
        r.start <= r.end <= len,
{
    proof {
        reveal_strlit("start");
        reveal_strlit("count");
    }
    let s = match usize_arg(args, "start") {
        Some(s) => s,
        None => 0,
    };
    let start = if s < len {
        s
    } else {
        len
    };
    let end = match usize_arg(args, "count") {
        Some(count) => {
            let e = start.saturating_add(count);
            if e < len {
                e
            } else {
                len
            }
        },
        None => len,
    };
    start..end
}

/// The `i64` argument `name`, or `0` when it is missing or not an `i64`.
pub open spec fn spec_i64_arg(args: Json, name: Seq<char>) -> i64 {
    match args.spec_get(name) {
        Some(v) => match v.spec_as_i64() {
            Some(i) => i,
            None => 0,
        },
        None => 0,
    }
}

/// Reads the `i64` argument `name`, `0` when it is missing or not an `i64`.
pub fn i64_arg(args: &Json, name: &str) -> (r: i64)
    ensures
        r == spec_i64_arg(*args, name@),
{
    match args.get(name) {
        Some(v) => match v.as_i64() {
            Some(i) => i,
            None => 0,
        },
        None => 0,
    }
}

/// Why the debuggee paused.
#[derive(Clone, Copy, PartialEq, Eq, Structural, Debug)]
pub enum PauseReason {
    Breakpoint,
    Step,
}

/// The text DAP gives a pause reason in a `stopped` event.
pub open spec fn pause_reason_text(reason: PauseReason) -> Seq<char> {
    match reason {
        PauseReason::Breakpoint => "breakpoint"@,
        PauseReason::Step => "step"@,
    }
}

/// One entry of a `setBreakpoints` answer.
#[derive(Debug)]
pub struct BreakpointInfo {
    pub verified: bool,
    /// The line it was placed on, when it was placed.
    pub line: Option<i64>,
}

/// One entry of a `threads` answer.
#[derive(Debug)]
pub struct ThreadInfo {
    pub id: i64,
    pub name: String,
}

/// One entry of a `stackTrace` answer.
#[derive(Debug)]
pub struct StackFrameInfo {
    pub id: i64,
    pub name: String,
    pub line: i64,
    pub column: i64,
    /// The path of the frame's source file.
    pub source: Option<String>,
    /// `normal` or `subtle`, where the back end tags frames.
    pub presentation_hint: Option<String>,
}

/// One entry of a `scopes` answer.
#[derive(Debug)]
pub struct ScopeInfo {
    pub name: String,
    pub variables_reference: i64,
    pub expensive: bool,
    pub named_variables: usize,
}

/// One entry of a `variables` answer.
#[derive(Debug)]
pub struct VariableInfo {
    pub name: String,
    pub value: String,
    pub type_label: Option<String>,
    /// `0` for a leaf, else the handle of its children.
    pub variables_reference: i64,
    pub indexed_variables: Option<usize>,
    pub named_variables: Option<usize>,
    pub memory_reference: Option<String>,
}

/// The body of a response or an event.
#[derive(Debug)]
pub enum Body {
    /// The adapter's capabilities, answered to `initialize`.
    Capabilities {
        supports_configuration_done_request: bool,
        supports_step_back: bool,
        supports_function_breakpoints: bool,
    },
    Breakpoints(Vec<BreakpointInfo>),
    Threads(Vec<ThreadInfo>),
    StackTrace { stack_frames: Vec<StackFrameInfo>, total_frames: usize },
    Scopes(Vec<ScopeInfo>),
    Variables(Vec<VariableInfo>),
    Continued { all_threads_continued: bool },
    /// An object with no members.
    Empty,
    Stopped { reason: String, thread_id: i64, all_threads_stopped: bool },
    Terminated { restart: bool },
}

/// A DAP message: a request from the client, or a response or an event
/// from the adapter.
#[derive(Debug)]
pub enum ProtocolMessage {
    Request { seq: i64, command: String, arguments: Option<Json> },
    Response {
        seq: i64,
        request_seq: i64,
        success: bool,
        command: String,
        message: Option<String>,
        body: Option<Body>,
    },
    Event { seq: i64, event: String, body: Option<Body> },
}

} // verus!
