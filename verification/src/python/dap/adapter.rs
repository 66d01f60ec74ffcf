//! The DAP back end for Python: answers built from the frames the worker
//! reported at the last pause.
use vstd::prelude::*;

use crate::dap::json::Json;
use crate::dap::session::{clears_handles, command_kind, request_answered, DapSession, Dispatch};
use crate::dap::types::{
    i64_arg, requested_range, spec_i64_arg, spec_usize_arg, window_end, window_start, Body, BreakpointInfo, ScopeInfo,
    StackFrameInfo, VariableInfo,
};
use crate::python::dap::vars::{
    duplicate_vars, var_views, PythonVar, PythonVarView, PythonVars,
};
use crate::python::debug::{reported_reason, Debugger, PauseInfo, ResumeCommand, StackFrame};
use crate::text::{ends_with, has_prefix, has_suffix, owned, starts_with};

verus! {

/// The indices, among the first `n` frames, of those a `stackTrace`
/// answer shows: every frame, or only the user's own when internals are
/// filtered out.
pub open spec fn shown_frames(frames: Seq<StackFrame>, filter_internals: bool, n: int) -> Seq<int>
    decreases n,
{
    if n <= 0 {
        Seq::empty()
    } else {
        shown_frames(frames, filter_internals, n - 1) + if !filter_internals || frames[n - 1].user {
            seq![n - 1]
        } else {
            Seq::empty()
        }
    }
}

/// `info` is how frame `f`, found at `index`, is shown.
pub open spec fn python_frame_shown(info: StackFrameInfo, f: StackFrame, index: int) -> bool {
    &&& info.id == index as i64
    &&& info.name@ == f.function@
    &&& info.line == f.line
    &&& info.column == 0
    &&& info.source matches Some(p) && p@ == f.file@
    &&& info.presentation_hint matches Some(h) && h@ == (if f.user {
        "normal"@
    } else {
        "subtle"@
    })
}

/// `info` is how a Python variable is shown, `reference` being the handle
/// its children are stored under when it has any.
pub open spec fn python_var_shown(info: VariableInfo, node: PythonVarView, reference: i64) -> bool {
    &&& info.name@ == node.name
    &&& info.value@ == node.value
    &&& info.type_label is None
    &&& info.memory_reference is None
    &&& if node.children.len() == 0 {
        &&& info.variables_reference == 0
        &&& info.indexed_variables is None
        &&& info.named_variables is None
    } else {
        &&& info.variables_reference == reference
        &&& node.indexed ==> info.indexed_variables == Some(node.children.len() as usize)
            && info.named_variables is None
        &&& !node.indexed ==> info.named_variables == Some(node.children.len() as usize)
            && info.indexed_variables is None
    }
}

/// How many of the `k` nodes from `start` on have children, and so take a
/// handle when they are shown.
pub open spec fn handles_taken(nodes: Seq<PythonVarView>, start: int, k: int) -> int
    decreases k,
{
    if k <= 0 {
        0
    } else {
        handles_taken(nodes, start, k - 1) + if nodes[start + k - 1].children.len() > 0 {
            1int
        } else {
            0int
        }
    }
}

proof fn lemma_handles_taken_bounds(nodes: Seq<PythonVarView>, start: int, k: int)
    ensures
        0 <= handles_taken(nodes, start, k) <= if k < 0 {
            0
        } else {
            k
        },
    decreases k,
{
    if k > 0 {
        lemma_handles_taken_bounds(nodes, start, k - 1);
    }
}

/// A name of the form `__*__`: two underscores, then anything, then two
/// underscores.
pub open spec fn is_dunder(name: Seq<char>) -> bool {
    name.len() >= 4 && has_prefix(name, "__"@) && has_suffix(name, "__"@)
}

/// Whether `name` is of the form `__*__`.
pub fn dunder(name: &str) -> (r: bool)
    ensures
        r == is_dunder(name@),
{
    name.unicode_len() >= 4 && starts_with(name, "__") && ends_with(name, "__")
}

/// The variables of `nodes` that are shown: those whose names are not of
/// the form `__*__`, in order.
pub open spec fn visible(nodes: Seq<PythonVarView>) -> Seq<PythonVarView>
    decreases nodes.len(),
{
    if nodes.len() == 0 {
        Seq::empty()
    } else if is_dunder(nodes.last().name) {
        visible(nodes.drop_last())
    } else {
        visible(nodes.drop_last()).push(nodes.last())
    }
}

proof fn lemma_visible_len(nodes: Seq<PythonVarView>)
    ensures
        visible(nodes).len() <= nodes.len(),
    decreases nodes.len(),
{
    if nodes.len() > 0 {
        lemma_visible_len(nodes.drop_last());
    }
}

proof fn lemma_handles_taken_push(nodes: Seq<PythonVarView>, x: PythonVarView, j: int)
    requires
        0 <= j <= nodes.len(),
    ensures
        handles_taken(nodes.push(x), 0, j) == handles_taken(nodes, 0, j),
    decreases j,
{
    if j > 0 {
        lemma_handles_taken_push(nodes, x, j - 1);
        assert(nodes.push(x)[j - 1] == nodes[j - 1]);
    }
}

/// What `variables` answers, from the handle table `before` to `after`:
/// the shown variables of the window and the handles they took, or that
/// the handle is unknown.
pub open spec fn variables_answer(
    before: PythonVars,
    after: PythonVars,
    args: Json,
    r: Result<Body, String>,
) -> bool {
    let reference = spec_i64_arg(args, "variablesReference"@);
    match r {
        Ok(b) => {
            &&& before.table().contains_key(reference)
            &&& {
                let nodes = before.table()[reference];
                let len = nodes.len() as usize;
                let start = window_start(spec_usize_arg(args, "start"@), len);
                let end = window_end(
                    spec_usize_arg(args, "start"@),
                    spec_usize_arg(args, "count"@),
                    len,
                );
                let shown = visible(nodes.subrange(start, end));
                let base = before.last_ref();
                &&& after.last_ref() == base + handles_taken(shown, 0, shown.len() as int)
                &&& forall|k: i64|
                    #[trigger] before.table().contains_key(k) ==> after.table().contains_key(k) && after.table()[k] == before.table()[k]
                &&& forall|k: i64|
                    #[trigger] after.table().contains_key(k) ==> before.table().contains_key(k) || base < k <= after.last_ref()
                &&& b matches Body::Variables(vs) && vs@.len() == shown.len() && forall|
                    j: int,
                |
                    0 <= j < shown.len() ==> {
                        let node = shown[j];
                        let h = base + handles_taken(shown, 0, j) + 1;
                        &&& python_var_shown(#[trigger] vs@[j], node, h as i64)
                        &&& !is_dunder(vs@[j].name@)
                        &&& node.children.len() > 0 ==> after.table().contains_key(h as i64) && after.table()[h as i64]
                            == node.children
                    }
            }
        },
        Err(e) => {
            &&& after == before
            &&& !before.table().contains_key(reference)
            &&& e@ == "Unknown variablesReference"@
        },
    }
}

/// Law: no variable handle survives a resume.  After the session has
/// processed a command that resumes the program (`configurationDone`,
/// `continue`, `next`, `stepIn`, `stepOut`), a `variables` request over the
/// session's handles, for any handle handed out before, is answered
/// `Unknown variablesReference`, and the handles stay as they are.
pub proof fn law_no_handle_survives_resume<D>(
    s0: DapSession<D>,
    s1: DapSession<D>,
    request_seq: i64,
    command: Seq<char>,
    resume_args: Json,
    dispatched: Dispatch,
    args: Json,
    after: PythonVars,
    r: Result<Body, String>,
)
    requires
        clears_handles(command_kind(command)),
        request_answered(s0, s1, request_seq, command, resume_args, dispatched),
        variables_answer(s1.vars(), after, args, r),
    ensures
        r matches Err(e) && e@ == "Unknown variablesReference"@,
        after == s1.vars(),
{
}

/// How many of `level` are shown: those whose names are not of the form
/// `__*__`.
fn count_visible(level: &Vec<PythonVar>) -> (r: usize)
    ensures
        r == visible(var_views(level@)).len(),
{
    let ghost v = var_views(level@);
    let mut n: usize = 0;
    let mut i: usize = 0;
    proof {
        assert(v.take(0) =~= Seq::<PythonVarView>::empty());
    }
    while i < level.len()
        invariant
            v == var_views(level@),
            i <= v.len(),
            n == visible(v.take(i as int)).len(),
            n <= i,
        decreases level.len() - i,
    {
        proof {
            assert(v.take(i + 1).drop_last() =~= v.take(i as int));
            assert(v.take(i + 1).last() == v[i as int]);
        }
        if !dunder(level[i].name.as_str()) {
            n = n + 1;
        }
        i = i + 1;
    }
    proof {
        assert(v.take(v.len() as int) =~= v);
    }
    n
}

/// A DAP answer that also resumes the program.
pub struct Resumed<'a> {
    /// The body of the answer (none for an empty answer).
    pub body: Option<Body>,
    /// The command to send to the worker.
    pub command: ResumeCommand<'a>,
}

/// DAP back end for Python (Bdb bridge over a shared memory buffer).
pub struct PythonBackend {
    pub debugger: Debugger,
    /// When true, internal frames (bdb, bridge) are omitted from
    /// `stackTrace` answers; they are tagged `subtle` either way.
    pub filter_internals: bool,
}

impl PythonBackend {
    pub fn new(debugger: Debugger, filter_internals: bool) -> (r: PythonBackend)
        ensures
            r.debugger == debugger,
            r.filter_internals == filter_internals,
    {
        PythonBackend { debugger, filter_internals }
    }

    /// `configurationDone`: lets the program run; the answer has no body.
    /// Like the other commands that resume the program, it leaves the back
    /// end as it was (the frames of the last stop are replaced at the next
    /// pause); the session drops the variable handles.
    pub fn configuration_done(&mut self) -> (r: Resumed<'_>)
        ensures
            *final(self) == *old(self),
            r.body is None,
            r.command.cmd == crate::python::debug::PYTHON_CMD_CONTINUE,
            r.command.breakpoints@ == old(self).debugger.breakpoints(),
    {
        Resumed { body: None, command: self.debugger.continue_() }
    }

    /// `setBreakpoints`: replaces the lines of `source`; every line is
    /// reported verified, at the line asked for.
    pub fn set_breakpoints(&mut self, source: &str, lines: &[i64]) -> (r: Body)
        ensures
            final(self).filter_internals == old(self).filter_internals,
            final(self).debugger.frames() == old(self).debugger.frames(),
            crate::python::debug::breakpoint_lines(final(self).debugger.breakpoints(), source@)
                == Some(lines@),
            forall|s: Seq<char>|
                s != source@ ==> crate::python::debug::breakpoint_lines(
                    final(self).debugger.breakpoints(),
                    s,
                ) == crate::python::debug::breakpoint_lines(old(self).debugger.breakpoints(), s),
            r matches Body::Breakpoints(bps) && bps@.len() == lines@.len() && forall|i: int|
                0 <= i < lines@.len() ==> #[trigger] bps@[i].verified && bps@[i].line == Some(
                    lines@[i],
                ),
    {
        let mut copy: Vec<i64> = Vec::new();
        let mut bps: Vec<BreakpointInfo> = Vec::new();
        let mut i: usize = 0;
        while i < lines.len()
            invariant
                i <= lines@.len(),
                copy@ == lines@.take(i as int),
                bps@.len() == i,
                forall|j: int|
                    0 <= j < i ==> #[trigger] bps@[j].verified && bps@[j].line == Some(lines@[j]),
            decreases lines.len() - i,
        {
            copy.push(lines[i]);
            bps.push(BreakpointInfo { verified: true, line: Some(lines[i]) });
            i = i + 1;
            assert(copy@ =~= lines@.take(i as int));
        }
        assert(lines@.take(lines@.len() as int) =~= lines@);
        self.debugger.set_breakpoints(source, copy);
        let r = Body::Breakpoints(bps);
        assert(r matches Body::Breakpoints(b) && b@.len() == lines@.len());
        r
    }

    /// `stackTrace`: the frames of the last pause, innermost first; each
    /// keeps its index among all frames as its id.
    pub fn stack_trace(&self) -> (r: Result<Body, String>)
        ensures
            match r {
                Ok(b) => match b {
                    Body::StackTrace { stack_frames, total_frames } => {
                        &&& self.debugger.frames() is Some
                        &&& {
                            let fs = self.debugger.frames()->0;
                            let shown = shown_frames(fs, self.filter_internals, fs.len() as int);
                            &&& stack_frames@.len() == shown.len()
                            &&& total_frames == shown.len()
                            &&& forall|j: int|
                                0 <= j < shown.len() ==> python_frame_shown(
                                    #[trigger] stack_frames@[j],
                                    fs[shown[j]],
                                    shown[j],
                                )
                        }
                    },
                    _ => false,
                },
                Err(e) => self.debugger.frames() is None && e@ == "No Python frames"@,
            },
    {
        let frames = match self.debugger.backtrace() {
            Ok(f) => f,
            Err(e) => {
                return Err(e);
            },
        };
        let ghost fs = frames@;
        let mut out: Vec<StackFrameInfo> = Vec::new();
        let mut i: usize = 0;
        while i < frames.len()
            invariant
                fs == frames@,
                i <= fs.len(),
                out@.len() == shown_frames(fs, self.filter_internals, i as int).len(),
                forall|j: int|
                    0 <= j < out@.len() ==> python_frame_shown(
                        #[trigger] out@[j],
                        fs[shown_frames(fs, self.filter_internals, i as int)[j]],
                        shown_frames(fs, self.filter_internals, i as int)[j],
                    ),
                forall|j: int|
                    0 <= j < shown_frames(fs, self.filter_internals, i as int).len() ==> 0
                        <= #[trigger] shown_frames(fs, self.filter_internals, i as int)[j] < i,
            decreases frames.len() - i,
        {
            let f = &frames[i];
            if !self.filter_internals || f.user {
                proof {
                    reveal_strlit("normal");
                    reveal_strlit("subtle");
                }
                let hint = if f.user {
                    owned("normal")
                } else {
                    owned("subtle")
                };
                out.push(
                    StackFrameInfo {
                        id: i as i64,
                        name: f.function.clone(),
                        line: f.line,
                        column: 0,
                        source: Some(f.file.clone()),
                        presentation_hint: Some(hint),
                    },
                );
            }
            i = i + 1;
        }
        let total = out.len();
        Ok(Body::StackTrace { stack_frames: out, total_frames: total })
    }

    /// `scopes`: one `Locals` scope for frame `frameId` (default `0`),
    /// whose variables are stored under a fresh handle; it counts the
    /// variables `variables` shows, those not named `__*__`.
    pub fn scopes(&mut self, args: &Json, vars: &mut PythonVars) -> (r: Result<Body, String>)
        requires
            old(vars).last_ref() < i64::MAX,
        ensures
            *final(self) == *old(self),
            ({
                let frame_id = spec_i64_arg(*args, "frameId"@) as usize;
                match r {
                    Ok(b) => {
                        &&& old(self).debugger.frames() is Some
                        &&& frame_id < old(self).debugger.frames()->0.len()
                        &&& {
                            let locals = old(self).debugger.frames()->0[frame_id as int].locals@;
                            let reference = old(vars).last_ref() + 1;
                            &&& final(vars).last_ref() == reference
                            &&& final(vars).table() == old(vars).table().insert(
                                reference as i64,
                                var_views(locals),
                            )
                            &&& b matches Body::Scopes(scopes) && scopes@.len() == 1 && {
                                let s = scopes@[0];
                                &&& s.name@ == "Locals"@
                                &&& s.variables_reference == reference
                                &&& !s.expensive
                                &&& s.named_variables == visible(var_views(locals)).len()
                            }
                        }
                    },
                    Err(e) => {
                        &&& *final(vars) == *old(vars)
                        &&& (old(self).debugger.frames() is None && e@ == "No Python frames"@)
                            || (old(self).debugger.frames() is Some && frame_id >= old(self).debugger.frames()->0.len() && e@ == "Invalid frame id"@)
                    },
                }
            }),
    {
        proof {
            reveal_strlit("frameId");
            reveal_strlit("Locals");
        }
        let frame_arg = i64_arg(args, "frameId");
        let frame_id = #[verifier::truncate] (frame_arg as usize);
        assert(frame_id == spec_i64_arg(*args, "frameId"@) as usize);
        let locals = match self.debugger.locals(frame_id) {
            Ok(l) => duplicate_vars(l.as_slice()),
            Err(e) => {
                return Err(e);
            },
        };
        assert(var_views(locals@) == var_views(self.debugger.frames()->0[frame_id as int].locals@));
        let named_variables = count_visible(&locals);
        let reference = vars.allocate(locals);
        let mut scopes: Vec<ScopeInfo> = Vec::new();
        scopes.push(
            ScopeInfo {
                name: owned("Locals"),
                variables_reference: reference,
                expensive: false,
                named_variables,
            },
        );
        let r = Body::Scopes(scopes);
        assert(r matches Body::Scopes(sc) && sc@.len() == 1 && sc@[0].name@ == "Locals"@);
        Ok(r)
    }

    /// `variables`: the window `start`/`count` of the level stored under
    /// `variablesReference`, without the variables whose names are of the
    /// form `__*__`; each shown variable with children stores them under
    /// the next fresh handle, in order.
    pub fn variables(&mut self, args: &Json, vars: &mut PythonVars) -> (r: Result<Body, String>)
        requires
            ({
                let reference = spec_i64_arg(*args, "variablesReference"@);
                old(vars).table().contains_key(reference) ==> old(vars).last_ref() + old(vars).table()[reference].len() <= i64::MAX
            }),
        ensures
            *final(self) == *old(self),
            variables_answer(*old(vars), *final(vars), *args, r),
    {
        proof {
            reveal_strlit("variablesReference");
        }
        let reference = i64_arg(args, "variablesReference");
        let nodes = match vars.get(reference) {
            Some(level) => duplicate_vars(level.as_slice()),
            None => {
                return Err(owned("Unknown variablesReference"));
            },
        };
        let ghost nv = var_views(nodes@);
        let ghost base = vars.last_ref();
        let ghost old_table = vars.table();
        let range = requested_range(args, nodes.len());
        let start = range.start;
        let end = range.end;
        let mut out: Vec<VariableInfo> = Vec::new();
        let mut i: usize = start;
        proof {
            assert(nv.subrange(start as int, start as int) =~= Seq::<PythonVarView>::empty());
        }
        while i < end
            invariant
                nv == var_views(nodes@),
                start <= i <= end <= nodes@.len(),
                base + nv.len() <= i64::MAX,
                vars.last_ref() == base + handles_taken(
                    visible(nv.subrange(start as int, i as int)),
                    0,
                    visible(nv.subrange(start as int, i as int)).len() as int,
                ),
                forall|k: i64|
                    #[trigger] old_table.contains_key(k) ==> vars.table().contains_key(k)
                        && vars.table()[k] == old_table[k],
                forall|k: i64|
                    #[trigger] vars.table().contains_key(k) ==> old_table.contains_key(k) || base
                        < k <= vars.last_ref(),
                forall|k: i64|
                    #[trigger] old_table.contains_key(k) ==> k <= base,
                out@.len() == visible(nv.subrange(start as int, i as int)).len(),
                forall|j: int|
                    0 <= j < out@.len() ==> {
                        let shown = visible(nv.subrange(start as int, i as int));
                        let node = shown[j];
                        let h = base + handles_taken(shown, 0, j) + 1;
                        &&& python_var_shown(#[trigger] out@[j], node, h as i64)
                        &&& !is_dunder(out@[j].name@)
                        &&& node.children.len() > 0 ==> vars.table().contains_key(h as i64)
                            && vars.table()[h as i64] == node.children
                    },
            decreases end - i,
        {
            let ghost shown = visible(nv.subrange(start as int, i as int));
            let ghost next = nv.subrange(start as int, i + 1);
            proof {
                assert(next.drop_last() =~= nv.subrange(start as int, i as int));
                assert(next.last() == nv[i as int]);
                lemma_visible_len(nv.subrange(start as int, i as int));
                lemma_handles_taken_bounds(shown, 0, shown.len() as int);
            }
            if !dunder(nodes[i].name.as_str()) {
                let ghost before_last = vars.last_ref();
                let info = vars.to_dap(&nodes[i]);
                out.push(info);
                proof {
                    let node = nv[i as int];
                    assert(visible(next) == shown.push(node));
                    assert forall|j: int| 0 <= j <= shown.len() implies #[trigger] handles_taken(
                        shown.push(node),
                        0,
                        j,
                    ) == handles_taken(shown, 0, j) by {
                        lemma_handles_taken_push(shown, node, j);
                    }
                    lemma_handles_taken_push(shown, node, shown.len() as int);
                    assert(shown.push(node)[0 + (shown.len() + 1int) - 1] == node);
                    assert(handles_taken(shown.push(node), 0, shown.len() + 1int) == handles_taken(
                        shown,
                        0,
                        shown.len() as int,
                    ) + if node.children.len() > 0 {
                        1int
                    } else {
                        0int
                    });
                    assert(shown.push(node)[shown.len() as int] == node);
                }
            } else {
                proof {
                    assert(visible(next) == shown);
                }
            }
            i = i + 1;
        }
        proof {
            let shown = visible(nv.subrange(start as int, end as int));
            assert forall|j: int| 0 <= j < shown.len() implies !is_dunder(#[trigger] shown[j].name) by {
                assert(out@[j].name@ == shown[j].name);
            }
        }
        Ok(Body::Variables(out))
    }

    /// `continue`: resumes until the next breakpoint.
    pub fn continue_(&mut self) -> (r: Resumed<'_>)
        ensures
            *final(self) == *old(self),
            r.body matches Some(Body::Continued { all_threads_continued }) && all_threads_continued,
            r.command.cmd == crate::python::debug::PYTHON_CMD_CONTINUE,
            r.command.breakpoints@ == old(self).debugger.breakpoints(),
    {
        Resumed {
            body: Some(Body::Continued { all_threads_continued: true }),
            command: self.debugger.continue_(),
        }
    }

    /// `next`: steps over the current line.
    pub fn next(&mut self) -> (r: Resumed<'_>)
        ensures
            *final(self) == *old(self),
            r.body matches Some(Body::Empty),
            r.command.cmd == crate::python::debug::PYTHON_CMD_STEP_OVER,
            r.command.breakpoints@ == old(self).debugger.breakpoints(),
    {
        Resumed { body: Some(Body::Empty), command: self.debugger.step_over() }
    }

    /// `stepIn`: steps into the next call.
    pub fn step_in(&mut self) -> (r: Resumed<'_>)
        ensures
            *final(self) == *old(self),
            r.body matches Some(Body::Empty),
            r.command.cmd == crate::python::debug::PYTHON_CMD_STEP_INTO,
            r.command.breakpoints@ == old(self).debugger.breakpoints(),
    {
        Resumed { body: Some(Body::Empty), command: self.debugger.step_into() }
    }

    /// `stepOut`: runs until the current frame returns.
    pub fn step_out(&mut self) -> (r: Resumed<'_>)
        ensures
            *final(self) == *old(self),
            r.body matches Some(Body::Empty),
            r.command.cmd == crate::python::debug::PYTHON_CMD_STEP_OUT,
            r.command.breakpoints@ == old(self).debugger.breakpoints(),
    {
        Resumed { body: Some(Body::Empty), command: self.debugger.step_out() }
    }

    /// The body of the `stopped` event for a pause the worker reported.
    pub fn handle_paused(&mut self, pause: PauseInfo) -> (r: Body)
        ensures
            final(self).debugger.frames() == Some(pause.frames@),
            final(self).debugger.breakpoints() == old(self).debugger.breakpoints(),
            final(self).filter_internals == old(self).filter_internals,
            r matches Body::Stopped { reason, thread_id, all_threads_stopped } && reason@
                == reported_reason(pause.reason@) && thread_id == 1 && all_threads_stopped,
    {
        let reason = self.debugger.on_pause(pause);
        Body::Stopped { reason: owned(reason), thread_id: 1, all_threads_stopped: true }
    }
}

} // verus!
