//! The Python debugger state kept on the main thread: the frames of the
//! last pause, the breakpoints to send on the next resume, and the
//! resume commands themselves.
use vstd::prelude::*;

use crate::python::dap::vars::PythonVar;
use crate::text::{concat3, owned, str_eq, u64_text};

verus! {

/// Bytes at the front of the shared buffer that hold the control words.
pub const PYTHON_DEBUG_HEADER: u32 = 12;

/// The most bytes a request to the worker may take: the shared buffer's
/// 4096 bytes less the header.
pub const PYTHON_RESPONSE_MAX: usize = 4084;

/// Command: run until the next breakpoint.
pub const PYTHON_CMD_CONTINUE: i32 = 0;

/// Command: stop at the next line of the same frame or an outer one.
pub const PYTHON_CMD_STEP_OVER: i32 = 1;

/// Command: stop at the next line that runs.
pub const PYTHON_CMD_STEP_INTO: i32 = 2;

/// Command: stop once the current frame has returned.
pub const PYTHON_CMD_STEP_OUT: i32 = 3;

/// Signal word: nothing pending.
pub const SIGNAL_IDLE: i32 = 0;

/// Signal word: the main thread has written a command.
pub const SIGNAL_MAIN_CMD: i32 = 1;

/// One frame of a paused Python program.
#[derive(Debug)]
pub struct StackFrame {
    pub file: String,
    pub line: i64,
    pub function: String,
    /// Whether the frame runs the user's own file.
    pub user: bool,
    pub locals: Vec<PythonVar>,
}

/// What the worker reports when the program pauses.
#[derive(Debug)]
pub struct PauseInfo {
    pub reason: String,
    pub frames: Vec<StackFrame>,
}

/// A resume command to send to the worker, with every breakpoint set so far.
pub struct ResumeCommand<'a> {
    pub cmd: i32,
    pub breakpoints: &'a Vec<(String, Vec<i64>)>,
}

/// The lines set for `source` in a breakpoint list, found by its first entry.
pub open spec fn breakpoint_lines(bps: Seq<(String, Vec<i64>)>, source: Seq<char>) -> Option<
    Seq<i64>,
>
    decreases bps.len(),
{
    if bps.len() == 0 {
        None
    } else if bps[0].0@ == source {
        Some(bps[0].1@)
    } else {
        breakpoint_lines(bps.drop_first(), source)
    }
}

/// No source occurs twice in a breakpoint list.
pub open spec fn sources_distinct(bps: Seq<(String, Vec<i64>)>) -> bool {
    forall|i: int, j: int| 0 <= i < j < bps.len() ==> bps[i].0@ != bps[j].0@
}

/// The reason text a pause is reported with.
pub open spec fn reported_reason(reason: Seq<char>) -> Seq<char> {
    if reason == "breakpoint"@ {
        "breakpoint"@
    } else {
        "step"@
    }
}

/// The debugger for one Python run, as seen from the main thread.
pub struct Debugger {
    frames: Option<Vec<StackFrame>>,
    breakpoints: Vec<(String, Vec<i64>)>,
}

impl Debugger {
    /// The frames of the last pause, if the program has paused.
    pub closed spec fn frames(self) -> Option<Seq<StackFrame>> {
        match self.frames {
            Some(f) => Some(f@),
            None => None,
        }
    }

    /// The breakpoints set so far, one entry per source.
    pub closed spec fn breakpoints(self) -> Seq<(String, Vec<i64>)> {
        self.breakpoints@
    }

    /// A debugger with no frames and no breakpoints.
    pub fn new() -> (r: Debugger)
        ensures
            r.frames() is None,
            r.breakpoints() == Seq::<(String, Vec<i64>)>::empty(),
    {
        Debugger { frames: None, breakpoints: Vec::new() }
    }

    /// Records a pause: keeps its frames, and returns the reason to report,
    /// `breakpoint` or `step`.
    pub fn on_pause(&mut self, pause: PauseInfo) -> (r: &'static str)
        ensures
            final(self).frames() == Some(pause.frames@),
            final(self).breakpoints() == old(self).breakpoints(),
            r@ == reported_reason(pause.reason@),
    {
        proof {
            reveal_strlit("breakpoint");
            reveal_strlit("step");
        }
        self.frames = Some(pause.frames);
        if str_eq(pause.reason.as_str(), "breakpoint") {
            "breakpoint"
        } else {
            "step"
        }
    }

    /// The frames of the last pause, innermost first.
    pub fn backtrace(&self) -> (r: Result<&Vec<StackFrame>, String>)
        ensures
            match r {
                Ok(f) => self.frames() == Some(f@),
                Err(e) => self.frames() is None && e@ == "No Python frames"@,
            },
    {
        match &self.frames {
            Some(f) => Ok(f),
            None => Err(owned("No Python frames")),
        }
    }

    /// The locals of frame `frame_id` of the last pause.
    pub fn locals(&self, frame_id: usize) -> (r: Result<&Vec<PythonVar>, String>)
        ensures
            match r {
                Ok(l) => self.frames() is Some && frame_id < self.frames()->0.len()
                    && self.frames()->0[frame_id as int].locals@ == l@,
                Err(e) => (self.frames() is None && e@ == "No Python frames"@) || (
                self.frames() is Some && frame_id >= self.frames()->0.len() && e@
                    == "Invalid frame id"@),
            },
    {
        let frames = match self.backtrace() {
            Ok(f) => f,
            Err(e) => {
                return Err(e);
            },
        };
        if frame_id < frames.len() {
            Ok(&frames[frame_id].locals)
        } else {
            Err(owned("Invalid frame id"))
        }
    }

    /// Sets the breakpoint lines of `source`, replacing those set before.
    pub fn set_breakpoints(&mut self, source: &str, lines: Vec<i64>)
        ensures
            final(self).frames() == old(self).frames(),
            breakpoint_lines(final(self).breakpoints(), source@) == Some(lines@),
            forall|s: Seq<char>|
                s != source@ ==> breakpoint_lines(final(self).breakpoints(), s)
                    == breakpoint_lines(old(self).breakpoints(), s),
            sources_distinct(old(self).breakpoints()) ==> sources_distinct(
                final(self).breakpoints(),
            ),
    {
        let ghost old_bps = self.breakpoints@;
        let mut i: usize = 0;
        assert(old_bps.skip(0) =~= old_bps);
        while i < self.breakpoints.len()
            invariant
                self.breakpoints@ == old_bps,
                old_bps == old(self).breakpoints(),
                self.frames() == old(self).frames(),
                i <= old_bps.len(),
                forall|j: int| 0 <= j < i ==> old_bps[j].0@ != source@,
                breakpoint_lines(old_bps, source@) == breakpoint_lines(
                    old_bps.skip(i as int),
                    source@,
                ),
            decreases self.breakpoints.len() - i,
        {
            assert(old_bps.skip(i as int).drop_first() =~= old_bps.skip(i + 1));
            if str_eq(self.breakpoints[i].0.as_str(), source) {
                let name = owned(source);
                self.breakpoints.set(i, (name, lines));
                proof {
                    lemma_breakpoint_lines_update(old_bps, i as int, self.breakpoints@, source@);
                }
                return ;
            }
            i = i + 1;
        }
        let name = owned(source);
        self.breakpoints.push((name, lines));
        proof {
            lemma_breakpoint_lines_push(old_bps, self.breakpoints@, source@);
        }
    }

    /// The command that resumes the program until its next breakpoint.
    pub fn continue_(&self) -> (r: ResumeCommand<'_>)
        ensures
            r.cmd == PYTHON_CMD_CONTINUE,
            r.breakpoints@ == self.breakpoints(),
    {
        ResumeCommand { cmd: PYTHON_CMD_CONTINUE, breakpoints: &self.breakpoints }
    }

    /// The command that steps over the current line.
    pub fn step_over(&self) -> (r: ResumeCommand<'_>)
        ensures
            r.cmd == PYTHON_CMD_STEP_OVER,
            r.breakpoints@ == self.breakpoints(),
    {
        ResumeCommand { cmd: PYTHON_CMD_STEP_OVER, breakpoints: &self.breakpoints }
    }

    /// The command that steps into the next call.
    pub fn step_into(&self) -> (r: ResumeCommand<'_>)
        ensures
            r.cmd == PYTHON_CMD_STEP_INTO,
            r.breakpoints@ == self.breakpoints(),
    {
        ResumeCommand { cmd: PYTHON_CMD_STEP_INTO, breakpoints: &self.breakpoints }
    }

    /// The command that runs until the current frame returns.
    pub fn step_out(&self) -> (r: ResumeCommand<'_>)
        ensures
            r.cmd == PYTHON_CMD_STEP_OUT,
            r.breakpoints@ == self.breakpoints(),
    {
        ResumeCommand { cmd: PYTHON_CMD_STEP_OUT, breakpoints: &self.breakpoints }
    }
}

proof fn lemma_breakpoint_lines_update(
    old_bps: Seq<(String, Vec<i64>)>,
    i: int,
    new_bps: Seq<(String, Vec<i64>)>,
    source: Seq<char>,
)
    requires
        0 <= i < old_bps.len(),
        new_bps.len() == old_bps.len(),
        forall|j: int| 0 <= j < old_bps.len() && j != i ==> new_bps[j] == old_bps[j],
        new_bps[i].0@ == source,
        old_bps[i].0@ == source,
        forall|j: int| 0 <= j < i ==> old_bps[j].0@ != source,
    ensures
        breakpoint_lines(new_bps, source) == Some(new_bps[i].1@),
        forall|s: Seq<char>|
            s != source ==> breakpoint_lines(new_bps, s) == breakpoint_lines(old_bps, s),
        sources_distinct(old_bps) ==> sources_distinct(new_bps),
    decreases i,
{
    if i == 0 {
        assert(new_bps.drop_first() =~= old_bps.drop_first());
        assert forall|s: Seq<char>| s != source implies breakpoint_lines(new_bps, s)
            == breakpoint_lines(old_bps, s) by {
            assert(breakpoint_lines(new_bps, s) == breakpoint_lines(new_bps.drop_first(), s));
            assert(breakpoint_lines(old_bps, s) == breakpoint_lines(old_bps.drop_first(), s));
        }
    } else {
        lemma_breakpoint_lines_update(old_bps.drop_first(), i - 1, new_bps.drop_first(), source);
        assert(new_bps[0] == old_bps[0]);
        assert forall|s: Seq<char>| s != source implies breakpoint_lines(new_bps, s)
            == breakpoint_lines(old_bps, s) by {
            if old_bps[0].0@ != s {
                assert(breakpoint_lines(new_bps, s) == breakpoint_lines(new_bps.drop_first(), s));
                assert(breakpoint_lines(old_bps, s) == breakpoint_lines(old_bps.drop_first(), s));
            }
        }
    }
    assert forall|j: int| 0 <= j < new_bps.len() implies #[trigger] new_bps[j].0@ == old_bps[j].0@ by {
        if j != i {
            assert(new_bps[j] == old_bps[j]);
        }
    }
}

proof fn lemma_breakpoint_lines_push(
    old_bps: Seq<(String, Vec<i64>)>,
    new_bps: Seq<(String, Vec<i64>)>,
    source: Seq<char>,
)
    requires
        new_bps.len() == old_bps.len() + 1,
        forall|j: int| 0 <= j < old_bps.len() ==> new_bps[j] == old_bps[j],
        new_bps.last().0@ == source,
        forall|j: int| 0 <= j < old_bps.len() ==> old_bps[j].0@ != source,
    ensures
        breakpoint_lines(new_bps, source) == Some(new_bps.last().1@),
        forall|s: Seq<char>|
            s != source ==> breakpoint_lines(new_bps, s) == breakpoint_lines(old_bps, s),
        sources_distinct(old_bps) ==> sources_distinct(new_bps),
    decreases old_bps.len(),
{
    if old_bps.len() > 0 {
        lemma_breakpoint_lines_push(old_bps.drop_first(), new_bps.drop_first(), source);
        assert(new_bps[0] == old_bps[0]);
        assert forall|s: Seq<char>| s != source implies breakpoint_lines(new_bps, s)
            == breakpoint_lines(old_bps, s) by {
            if old_bps[0].0@ != s {
                assert(breakpoint_lines(new_bps, s) == breakpoint_lines(new_bps.drop_first(), s));
                assert(breakpoint_lines(old_bps, s) == breakpoint_lines(old_bps.drop_first(), s));
            }
        }
    } else {
        assert forall|s: Seq<char>| s != source implies breakpoint_lines(new_bps, s)
            == breakpoint_lines(old_bps, s) by {
            assert(breakpoint_lines(new_bps, s) == breakpoint_lines(new_bps.drop_first(), s));
            assert(new_bps.drop_first().len() == 0);
        }
    }
}

/// Checks that a request of `len` bytes fits in the shared buffer.
pub fn check_request_len(len: usize) -> (r: Result<(), String>)
    ensures
        r is Ok <==> len <= PYTHON_RESPONSE_MAX,
        r matches Err(e) ==> e@ == "Python debug request exceeds SAB ("@ + crate::text::decimal(
            len as nat,
        ) + " bytes, max 4084)"@,
{
    if len > PYTHON_RESPONSE_MAX {
        let n = u64_text(len as u64);
        Err(concat3("Python debug request exceeds SAB (", n.as_str(), " bytes, max 4084)"))
    } else {
        Ok(())
    }
}

} // verus!
