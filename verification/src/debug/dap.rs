//! The DAP back end for DWARF-instrumented languages (C, C++, Rust): the
//! per-stop table of variable handles, which children a `variables`
//! request asks for, and the answers built from what the debugger reads.
use std::collections::HashMap;
use std::ops::Range;
use vstd::prelude::*;

use crate::dap::json::Json;
use crate::dap::types::{
    i64_arg, pause_reason_text, requested_range, spec_i64_arg, spec_usize_arg, window_end,
    window_start, Body, BreakpointInfo, PauseReason, ScopeInfo, StackFrameInfo, VariableInfo,
};
use crate::debug::formatters::ChildCounts;
use crate::text::{concat3, decimal, owned, str_eq, u64_text};

verus! {

/// A handle handed out as a DAP `variablesReference`: a flat scope list,
/// or one expandable variable with its child counts.
#[derive(Debug)]
pub enum DwarfRef<V> {
    List(Vec<V>),
    Variable { var: V, counts: ChildCounts },
}

/// Per-stop table of DWARF variable handles, emptied on each pause so
/// that stale handles from a previous stop never resolve.
pub struct DwarfVars<V> {
    next_ref: i64,
    entries: HashMap<i64, DwarfRef<V>>,
}

impl<V> DwarfVars<V> {
    #[verifier::type_invariant]
    spec fn inv(self) -> bool {
        &&& 0 <= self.next_ref
        &&& forall|k: i64| #[trigger] self.entries@.contains_key(k) ==> 1 <= k <= self.next_ref
    }

    /// The last handle given out since the table was last emptied.
    pub closed spec fn last_ref(self) -> i64 {
        self.next_ref
    }

    /// What each live handle stands for.
    pub closed spec fn table(self) -> Map<i64, DwarfRef<V>> {
        self.entries@
    }

    /// An empty table.
    pub fn new() -> (r: Self)
        ensures
            r.last_ref() == 0,
            r.table() == Map::<i64, DwarfRef<V>>::empty(),
    {
        DwarfVars { next_ref: 0, entries: HashMap::new() }
    }

    /// Drops every handle and starts numbering again from `1`.
    pub fn clear(&mut self)
        ensures
            final(self).last_ref() == 0,
            final(self).table() == Map::<i64, DwarfRef<V>>::empty(),
    {
        proof {
            use_type_invariant(&*self);
        }
        self.entries = HashMap::new();
        self.next_ref = 0;
    }

    /// Stores `reference` under a fresh handle and returns it.
    pub fn allocate(&mut self, reference: DwarfRef<V>) -> (r: i64)
        requires
            old(self).last_ref() < i64::MAX,
        ensures
            r == old(self).last_ref() + 1,
            final(self).last_ref() == r,
            !old(self).table().contains_key(r),
            final(self).table() == old(self).table().insert(r, reference),
    {
        proof {
            use_type_invariant(&*self);
        }
        let mut entries: HashMap<i64, DwarfRef<V>> = HashMap::new();
        std::mem::swap(&mut entries, &mut self.entries);
        let r = self.next_ref + 1;
        entries.insert(r, reference);
        self.next_ref = r;
        self.entries = entries;
        r
    }

    /// What `reference` stands for, if that handle is live.
    pub fn get(&self, reference: i64) -> (r: Option<&DwarfRef<V>>)
        ensures
            match r {
                Some(v) => self.table().contains_key(reference) && self.table()[reference] == *v,
                None => !self.table().contains_key(reference),
            },
            0 <= self.last_ref(),
            forall|k: i64| #[trigger] self.table().contains_key(k) ==> 1 <= k <= self.last_ref(),
    {
        proof {
            use_type_invariant(self);
        }
        self.entries.get(&reference)
    }
}

impl<V> Default for DwarfVars<V> {
    fn default() -> (r: Self)
        ensures
            r.last_ref() == 0,
            r.table() == Map::<i64, DwarfRef<V>>::empty(),
    {
        DwarfVars::new()
    }
}

/// `after` is what `allocate(reference)` leaves of `before`.
pub open spec fn allocated_from<V>(before: DwarfVars<V>, after: DwarfVars<V>, reference: DwarfRef<V>) -> bool {
    &&& before.last_ref() < i64::MAX
    &&& after.last_ref() == before.last_ref() + 1
    &&& after.table() == before.table().insert(after.last_ref(), reference)
}

/// Law of the handle table: after a `clear`, the handles given out are
/// `1, 2, ...` in the order the entries were stored, each resolves through
/// `get` to its own entry, and no other handle resolves.
pub proof fn law_handles_follow_allocations<V>(states: Seq<DwarfVars<V>>, entries: Seq<DwarfRef<V>>)
    requires
        states.len() == entries.len() + 1,
        states[0].last_ref() == 0,
        states[0].table() == Map::<i64, DwarfRef<V>>::empty(),
        forall|i: int| 0 <= i < entries.len() ==> allocated_from(#[trigger] states[i], states[i + 1], entries[i]),
    ensures
        states.last().last_ref() == entries.len(),
        forall|k: i64| #[trigger] states.last().table().contains_key(k) <==> 1 <= k <= entries.len(),
        forall|k: i64| 1 <= k <= entries.len() ==> #[trigger] states.last().table()[k] == entries[k - 1],
    decreases entries.len(),
{
    if entries.len() > 0 {
        let n = entries.len() - 1;
        let prev = states.drop_last();
        assert forall|i: int| 0 <= i < entries.drop_last().len() implies allocated_from(
            #[trigger] prev[i],
            prev[i + 1],
            entries.drop_last()[i],
        ) by {
            assert(allocated_from(states[i], states[i + 1], entries[i]));
        }
        law_handles_follow_allocations(prev, entries.drop_last());
        assert(allocated_from(states[n], states[n + 1], entries[n]));
        assert(prev.last() == states[n]);
    }
}

/// What `lookup_children` answers over the handle table `table`: the
/// entry of the `variablesReference` handle and the window asked of it, or
/// why there is none.
pub open spec fn children_lookup<V>(
    table: Map<i64, DwarfRef<V>>,
    args: Json,
    r: Result<(&DwarfRef<V>, ChildWindow), String>,
) -> bool {
    let reference = spec_i64_arg(args, "variablesReference"@);
    match r {
        Ok((d, w)) => table.contains_key(reference) && *d == table[reference]
            && spec_requested_children(args, *d) == Ok::<ChildWindow, Seq<char>>(w),
        Err(e) => (!table.contains_key(reference) && e@ == "Unknown variablesReference"@) || (
        table.contains_key(reference) && spec_requested_children(args, table[reference]) == Err::<
            ChildWindow,
            Seq<char>,
        >(e@)),
    }
}

/// Law: no variable handle survives a resume.  Once a command that resumes
/// the program has emptied the table, a `variables` lookup of any handle,
/// from before or not, is answered `Unknown variablesReference`.
pub proof fn law_no_handle_survives_resume<V>(
    table: Map<i64, DwarfRef<V>>,
    args: Json,
    r: Result<(&DwarfRef<V>, ChildWindow), String>,
)
    requires
        table == Map::<i64, DwarfRef<V>>::empty(),
        children_lookup(table, args, r),
    ensures
        r matches Err(e) && e@ == "Unknown variablesReference"@,
{
}

/// Which children a `variables` request asks for.
#[derive(Clone, Copy, PartialEq, Eq, Structural, Debug)]
pub enum ChildWindow {
    /// Nothing.
    Empty,
    /// These entries of a scope list.
    List { start: usize, end: usize },
    /// These indexed children of a variable.
    Indexed { start: usize, end: usize },
    /// These named children of a variable.
    Named { start: usize, end: usize },
    /// Named children first, then indexed ones, as one window over both.
    Mixed { named_start: usize, named_end: usize, indexed_start: usize, indexed_end: usize },
}

/// The `filter` argument of a `variables` request, if it is a string.
pub open spec fn spec_filter(args: Json) -> Option<Seq<char>> {
    match args.spec_get("filter"@) {
        Some(f) => f.spec_as_str(),
        None => None,
    }
}

/// The text `<str as Debug>::fmt` writes for a string (quoted, with
/// escapes), left uninterpreted.
pub uninterp spec fn str_debug_text(s: Seq<char>) -> Seq<char>;

/// The text `<str as Debug>::fmt` writes for `s`, with `format!("{:?}")`.
/// The contract claims only that the text is a function of `s`
/// (`str_debug_text`); which characters are escaped, and how, is left
/// unsaid.
#[verifier::external_body]
fn debug_text(s: &str) -> (r: String)
    ensures
        r@ == str_debug_text(s@),
{
    format!("{:?}", s)
}

/// The error for a `filter` that is neither `indexed` nor `named`.
pub open spec fn invalid_filter(f: Seq<char>) -> Seq<char> {
    "Invalid variable filter: '"@ + str_debug_text(f) + "'"@
}

/// The smaller of two numbers.
pub open spec fn min(a: int, b: int) -> int {
    if a < b {
        a
    } else {
        b
    }
}

/// `a - b`, or `0` when `b` is larger.
pub open spec fn sub0(a: int, b: int) -> int {
    if a > b {
        a - b
    } else {
        0
    }
}

/// The named and indexed parts of one window `start..end` over a
/// variable's children, named ones first.
pub open spec fn mixed_window(start: int, end: int, counts: ChildCounts) -> ChildWindow {
    ChildWindow::Mixed {
        named_start: min(start, counts.named as int) as usize,
        named_end: min(end, counts.named as int) as usize,
        indexed_start: min(sub0(start, counts.named as int), counts.indexed as int) as usize,
        indexed_end: min(sub0(end, counts.named as int), counts.indexed as int) as usize,
    }
}

/// The window the arguments ask for over `len` children.
pub open spec fn arg_window(args: Json, len: usize) -> (int, int) {
    (
        window_start(spec_usize_arg(args, "start"@), len),
        window_end(spec_usize_arg(args, "start"@), spec_usize_arg(args, "count"@), len),
    )
}

/// Which children the arguments ask for of a handle.
pub open spec fn spec_requested_children<V>(args: Json, reference: DwarfRef<V>) -> Result<
    ChildWindow,
    Seq<char>,
> {
    let filter = spec_filter(args);
    match reference {
        DwarfRef::List(entries) => {
            let w = arg_window(args, entries@.len() as usize);
            match filter {
                Some(f) => if f == "indexed"@ {
                    Ok(ChildWindow::Empty)
                } else if f == "named"@ {
                    Ok(ChildWindow::List { start: w.0 as usize, end: w.1 as usize })
                } else {
                    Err(invalid_filter(f))
                },
                None => Ok(ChildWindow::List { start: w.0 as usize, end: w.1 as usize }),
            }
        },
        DwarfRef::Variable { counts, .. } => match filter {
            Some(f) => if f == "indexed"@ {
                let w = arg_window(args, counts.indexed);
                Ok(ChildWindow::Indexed { start: w.0 as usize, end: w.1 as usize })
            } else if f == "named"@ {
                let w = arg_window(args, counts.named);
                Ok(ChildWindow::Named { start: w.0 as usize, end: w.1 as usize })
            } else {
                Err(invalid_filter(f))
            },
            None => {
                let w = arg_window(args, (counts.indexed + counts.named) as usize);
                Ok(mixed_window(w.0, w.1, counts))
            },
        },
    }
}

fn filter_arg(args: &Json) -> (r: Option<&str>)
    ensures
        match r {
            Some(s) => spec_filter(*args) == Some(s@),
            None => spec_filter(*args) is None,
        },
{
    proof {
        reveal_strlit("filter");
    }
    match args.get("filter") {
        Some(f) => f.as_str(),
        None => None,
    }
}

fn invalid_filter_error(f: &str) -> (r: String)
    ensures
        r@ == invalid_filter(f@),
{
    let d = debug_text(f);
    concat3("Invalid variable filter: '", d.as_str(), "'")
}

/// Splits the window `range` over a variable's children, named first and
/// then indexed, into its named and indexed parts.
pub fn requested_mixed_children(range: Range<usize>, counts: &ChildCounts) -> (r: ChildWindow)
    ensures
        r == mixed_window(range.start as int, range.end as int, *counts),
{
    let named_start = if range.start < counts.named {
        range.start
    } else {
        counts.named
    };
    let named_end = if range.end < counts.named {
        range.end
    } else {
        counts.named
    };
    let s = range.start.saturating_sub(counts.named);
    let e = range.end.saturating_sub(counts.named);
    let indexed_start = if s < counts.indexed {
        s
    } else {
        counts.indexed
    };
    let indexed_end = if e < counts.indexed {
        e
    } else {
        counts.indexed
    };
    ChildWindow::Mixed { named_start, named_end, indexed_start, indexed_end }
}

/// Which children a `variables` request asks for of `reference`: a window
/// over a scope list (none under the `indexed` filter), over a variable's
/// indexed or named children, or, without a filter, over named then
/// indexed children; any other filter is refused.
pub fn requested_children<V>(args: &Json, reference: &DwarfRef<V>) -> (r: Result<
    ChildWindow,
    String,
>)
    requires
        reference matches DwarfRef::Variable { counts, .. } ==> counts.indexed + counts.named
            <= usize::MAX,
    ensures
        match (r, spec_requested_children(*args, *reference)) {
            (Ok(w), Ok(w2)) => w == w2,
            (Err(e), Err(e2)) => e@ == e2,
            _ => false,
        },
{
    proof {
        reveal_strlit("indexed");
        reveal_strlit("named");
        reveal_strlit("start");
        reveal_strlit("count");
    }
    let filter = filter_arg(args);
    match reference {
        DwarfRef::List(entries) => {
            let range = requested_range(args, entries.len());
            match filter {
                Some(f) => if str_eq(f, "indexed") {
                    Ok(ChildWindow::Empty)
                } else if str_eq(f, "named") {
                    Ok(ChildWindow::List { start: range.start, end: range.end })
                } else {
                    Err(invalid_filter_error(f))
                },
                None => Ok(ChildWindow::List { start: range.start, end: range.end }),
            }
        },
        DwarfRef::Variable { counts, .. } => match filter {
            Some(f) => if str_eq(f, "indexed") {
                let range = requested_range(args, counts.indexed);
                Ok(ChildWindow::Indexed { start: range.start, end: range.end })
            } else if str_eq(f, "named") {
                let range = requested_range(args, counts.named);
                Ok(ChildWindow::Named { start: range.start, end: range.end })
            } else {
                Err(invalid_filter_error(f))
            },
            None => {
                let range = requested_range(args, counts.total());
                Ok(requested_mixed_children(range, counts))
            },
        },
    }
}

/// The `frameId` argument, `0` when missing, cut to 32 bits.
pub open spec fn spec_frame_id(args: Json) -> u32 {
    spec_i64_arg(args, "frameId"@) as u32
}

/// The text shown for a value whose display failed.
pub open spec fn display_text(display: Result<String, String>) -> Seq<char> {
    match display {
        Ok(s) => s@,
        Err(e) => "<error: "@ + e@ + ">"@,
    }
}

/// The values the debugger read of one variable, from which its DAP entry
/// is built.
#[derive(Debug)]
pub struct VariableFacts {
    pub name: String,
    /// The value's text, or why it could not be shown.
    pub display: Result<String, String>,
    pub type_label: String,
    pub counts: ChildCounts,
    /// The variable's address in memory, if it has one.
    pub address: Option<u64>,
}

/// The variables of a frame, by scope.
#[derive(Debug)]
pub struct FrameVariables<V> {
    pub arguments: Vec<V>,
    pub locals: Vec<V>,
    pub globals: Vec<V>,
}

/// How the DWARF debugger is to resume the program.  The back end only
/// decides; whoever holds the debugger performs it.
#[derive(Clone, Copy, PartialEq, Eq, Structural, Debug)]
pub enum ResumeMode {
    /// Run until the next breakpoint.
    Continue,
    /// Stop at the next line of the same or an outer frame.
    StepOver,
    /// Stop at the next line that runs, entering calls.
    StepInto,
    /// Stop once the current frame has returned.
    StepOut,
}

/// DAP back end for DWARF-instrumented languages: the debugger handle,
/// and the table of variable handles of the current stop.
pub struct DwarfBackend<G, V> {
    pub debugger: G,
    pub vars: DwarfVars<V>,
}

/// `info` is a scope entry named `name` over `n` variables under `reference`.
pub open spec fn scope_shown(info: ScopeInfo, name: Seq<char>, reference: i64, n: nat) -> bool {
    &&& info.name@ == name
    &&& info.variables_reference == reference
    &&& !info.expensive
    &&& info.named_variables == n
}

/// The names of the non-empty scopes, in order: arguments, locals, globals.
pub open spec fn shown_scopes(na: nat, nl: nat, ng: nat) -> Seq<(Seq<char>, nat)> {
    (if na > 0 {
        seq![("Arguments"@, na)]
    } else {
        Seq::empty()
    }) + (if nl > 0 {
        seq![("Locals"@, nl)]
    } else {
        Seq::empty()
    }) + (if ng > 0 {
        seq![("Globals"@, ng)]
    } else {
        Seq::empty()
    })
}

/// Law of DWARF scopes: the scopes answered are named `Arguments`,
/// `Locals` and `Globals` after the group of variables each holds, a frame
/// with arguments answers `Arguments` first, no name is answered twice,
/// and only non-empty groups are answered.
pub proof fn law_scopes_named_after_their_groups(na: nat, nl: nat, ng: nat)
    ensures
        ({
            let s = shown_scopes(na, nl, ng);
            &&& s.len() == (if na > 0 { 1int } else { 0 }) + (if nl > 0 { 1int } else { 0 }) + (
            if ng > 0 {
                1int
            } else {
                0
            })
            &&& na > 0 ==> s[0] == ("Arguments"@, na)
            &&& forall|j: int|
                0 <= j < s.len() ==> {
                    &&& (#[trigger] s[j]).0 == "Arguments"@ ==> s[j].1 == na
                    &&& s[j].0 == "Locals"@ ==> s[j].1 == nl
                    &&& s[j].0 == "Globals"@ ==> s[j].1 == ng
                    &&& s[j].0 == "Arguments"@ || s[j].0 == "Locals"@ || s[j].0 == "Globals"@
                    &&& s[j].1 > 0
                }
            &&& forall|i: int, j: int| 0 <= i < j < s.len() ==> (#[trigger] s[i]).0 != (#[trigger] s[j]).0
        }),
{
    reveal_strlit("Arguments");
    reveal_strlit("Locals");
    reveal_strlit("Globals");
    assert("Arguments"@.len() == 9 && "Locals"@.len() == 6 && "Globals"@.len() == 7);
}

impl<G, V> DwarfBackend<G, V> {
    pub fn new(debugger: G) -> (r: Self)
        ensures
            r.debugger == debugger,
            r.vars.last_ref() == 0,
            r.vars.table() == Map::<i64, DwarfRef<V>>::empty(),
    {
        DwarfBackend { debugger, vars: DwarfVars::new() }
    }

    /// A scope entry for `vars`, stored under a fresh handle.
    fn scope_response(&mut self, name: &str, vars: Vec<V>) -> (r: ScopeInfo)
        requires
            old(self).vars.last_ref() < i64::MAX,
        ensures
            scope_shown(r, name@, (old(self).vars.last_ref() + 1) as i64, vars@.len()),
            final(self).vars.last_ref() == old(self).vars.last_ref() + 1,
            final(self).vars.table() == old(self).vars.table().insert(
                (old(self).vars.last_ref() + 1) as i64,
                DwarfRef::List(vars),
            ),
            final(self).debugger == old(self).debugger,
    {
        let nvars = vars.len();
        let reference = self.vars.allocate(DwarfRef::List(vars));
        ScopeInfo {
            name: owned(name),
            variables_reference: reference,
            expensive: false,
            named_variables: nvars,
        }
    }

    /// `scopes`: a scope for each non-empty group of the frame's
    /// variables, in the order arguments, locals, globals, each stored
    /// under the next fresh handle.
    pub fn scopes(&mut self, variables: FrameVariables<V>) -> (r: Body)
        requires
            old(self).vars.last_ref() < i64::MAX - 3,
        ensures
            final(self).debugger == old(self).debugger,
            r matches Body::Scopes(scopes) && {
                let shown = shown_scopes(
                    variables.arguments@.len(),
                    variables.locals@.len(),
                    variables.globals@.len(),
                );
                &&& scopes@.len() == shown.len()
                &&& final(self).vars.last_ref() == old(self).vars.last_ref() + shown.len()
                &&& forall|j: int|
                    0 <= j < shown.len() ==> scope_shown(
                        #[trigger] scopes@[j],
                        shown[j].0,
                        (old(self).vars.last_ref() + j + 1) as i64,
                        shown[j].1,
                    )
            },
    {
        proof {
            reveal_strlit("Arguments");
            reveal_strlit("Locals");
            reveal_strlit("Globals");
        }
        let ghost base = self.vars.last_ref();
        let na = variables.arguments.len();
        let nl = variables.locals.len();
        let ng = variables.globals.len();
        let mut scopes: Vec<ScopeInfo> = Vec::new();
        if na > 0 {
            let s = self.scope_response("Arguments", variables.arguments);
            scopes.push(s);
        }
        let ghost k1 = scopes@.len();
        if nl > 0 {
            let s = self.scope_response("Locals", variables.locals);
            scopes.push(s);
        }
        let ghost k2 = scopes@.len();
        if ng > 0 {
            let s = self.scope_response("Globals", variables.globals);
            scopes.push(s);
        }
        proof {
            let shown = shown_scopes(na as nat, nl as nat, ng as nat);
            assert(shown.len() == scopes@.len());
            assert forall|j: int| 0 <= j < shown.len() implies scope_shown(
                #[trigger] scopes@[j],
                shown[j].0,
                (base + j + 1) as i64,
                shown[j].1,
            ) by {
                if na > 0 && j == 0 {
                } else if nl > 0 && j == k1 {
                } else {
                }
            }
        }
        Body::Scopes(scopes)
    }

    /// The DAP entry of one variable: a leaf gets handle `0`; a variable
    /// with children is stored under a fresh handle, with hints of how many
    /// indexed and named children it has and its address, when known.
    pub fn variable_response(&mut self, var: V, facts: VariableFacts) -> (r: VariableInfo)
        requires
            old(self).vars.last_ref() < i64::MAX,
        ensures
            final(self).debugger == old(self).debugger,
            r.name@ == facts.name@,
            r.value@ == display_text(facts.display),
            r.type_label matches Some(t) && t@ == facts.type_label@,
            facts.counts.indexed == 0 && facts.counts.named == 0 ==> r.variables_reference == 0
                && final(self).vars == old(self).vars,
            !(facts.counts.indexed == 0 && facts.counts.named == 0) ==> r.variables_reference
                == old(self).vars.last_ref() + 1 && final(self).vars.last_ref()
                == r.variables_reference && final(self).vars.table() == old(
                self).vars.table().insert(
                r.variables_reference,
                DwarfRef::Variable { var, counts: facts.counts },
            ),
            r.indexed_variables == if facts.counts.indexed > 0 {
                Some(facts.counts.indexed)
            } else {
                None::<usize>
            },
            r.named_variables == if facts.counts.named > 0 {
                Some(facts.counts.named)
            } else {
                None::<usize>
            },
            match facts.address {
                Some(a) => r.memory_reference matches Some(m) && m@ == decimal(a as nat),
                None => r.memory_reference is None,
            },
    {
        let counts = facts.counts;
        let sub_ref = if counts.is_empty() {
            0
        } else {
            self.vars.allocate(DwarfRef::Variable { var, counts })
        };
        let value = match facts.display {
            Ok(s) => s,
            Err(e) => concat3("<error: ", e.as_str(), ">"),
        };
        let memory_reference = match facts.address {
            Some(a) => Some(u64_text(a)),
            None => None,
        };
        VariableInfo {
            name: facts.name,
            value,
            type_label: Some(facts.type_label),
            variables_reference: sub_ref,
            indexed_variables: if counts.indexed > 0 {
                Some(counts.indexed)
            } else {
                None
            },
            named_variables: if counts.named > 0 {
                Some(counts.named)
            } else {
                None
            },
            memory_reference,
        }
    }

    /// `variables`, first half: which children of which handle to read.
    /// The handle comes from `variablesReference` (default `0`).
    pub fn lookup_children(&self, args: &Json) -> (r: Result<(&DwarfRef<V>, ChildWindow), String>)
        requires
            forall|k: i64|
                #[trigger] self.vars.table().contains_key(k) ==> (self.vars.table()[k] matches DwarfRef::Variable { counts, .. } ==> counts.indexed + counts.named <= usize::MAX),
        ensures
            children_lookup(self.vars.table(), *args, r),
    {
        proof {
            reveal_strlit("variablesReference");
        }
        let reference = i64_arg(args, "variablesReference");
        let d = match self.vars.get(reference) {
            Some(d) => d,
            None => {
                return Err(owned("Unknown variablesReference"));
            },
        };
        match requested_children(args, d) {
            Ok(w) => Ok((d, w)),
            Err(e) => Err(e),
        }
    }

    /// `configurationDone`: lets the program run; the answer has no body.
    /// Like every command that resumes the program, it drops the variable
    /// handles of the last stop.
    pub fn configuration_done(&mut self) -> (r: (Option<Body>, ResumeMode))
        ensures
            final(self).debugger == old(self).debugger,
            final(self).vars.last_ref() == 0,
            final(self).vars.table() == Map::<i64, DwarfRef<V>>::empty(),
            r.0 is None,
            r.1 == ResumeMode::Continue,
    {
        self.vars.clear();
        (None, ResumeMode::Continue)
    }

    /// `continue`: resumes until the next breakpoint.
    pub fn continue_(&mut self) -> (r: (Option<Body>, ResumeMode))
        ensures
            final(self).debugger == old(self).debugger,
            final(self).vars.last_ref() == 0,
            final(self).vars.table() == Map::<i64, DwarfRef<V>>::empty(),
            r.0 matches Some(Body::Continued { all_threads_continued }) && all_threads_continued,
            r.1 == ResumeMode::Continue,
    {
        self.vars.clear();
        (Some(Body::Continued { all_threads_continued: true }), ResumeMode::Continue)
    }

    /// `next`: steps over the current line.
    pub fn next(&mut self) -> (r: (Option<Body>, ResumeMode))
        ensures
            final(self).debugger == old(self).debugger,
            final(self).vars.last_ref() == 0,
            final(self).vars.table() == Map::<i64, DwarfRef<V>>::empty(),
            r.0 matches Some(Body::Empty),
            r.1 == ResumeMode::StepOver,
    {
        self.vars.clear();
        (Some(Body::Empty), ResumeMode::StepOver)
    }

    /// `stepIn`: steps into the next call.
    pub fn step_in(&mut self) -> (r: (Option<Body>, ResumeMode))
        ensures
            final(self).debugger == old(self).debugger,
            final(self).vars.last_ref() == 0,
            final(self).vars.table() == Map::<i64, DwarfRef<V>>::empty(),
            r.0 matches Some(Body::Empty),
            r.1 == ResumeMode::StepInto,
    {
        self.vars.clear();
        (Some(Body::Empty), ResumeMode::StepInto)
    }

    /// `stepOut`: runs until the current frame returns.
    pub fn step_out(&mut self) -> (r: (Option<Body>, ResumeMode))
        ensures
            final(self).debugger == old(self).debugger,
            final(self).vars.last_ref() == 0,
            final(self).vars.table() == Map::<i64, DwarfRef<V>>::empty(),
            r.0 matches Some(Body::Empty),
            r.1 == ResumeMode::StepOut,
    {
        self.vars.clear();
        (Some(Body::Empty), ResumeMode::StepOut)
    }

    /// The `stopped` event body for a pause; every handle of the previous
    /// stop is dropped.
    pub fn handle_paused(&mut self, reason: PauseReason) -> (r: Body)
        ensures
            final(self).debugger == old(self).debugger,
            final(self).vars.last_ref() == 0,
            final(self).vars.table() == Map::<i64, DwarfRef<V>>::empty(),
            r matches Body::Stopped { reason: t, thread_id, all_threads_stopped } && t@
                == pause_reason_text(reason) && thread_id == 1 && all_threads_stopped,
    {
        proof {
            reveal_strlit("breakpoint");
            reveal_strlit("step");
        }
        self.vars.clear();
        let text = match reason {
            PauseReason::Breakpoint => owned("breakpoint"),
            PauseReason::Step => owned("step"),
        };
        Body::Stopped { reason: text, thread_id: 1, all_threads_stopped: true }
    }
}

/// The `frameId` argument of `scopes`, `0` when missing, cut to 32 bits.
pub fn frame_id(args: &Json) -> (r: u32)
    ensures
        r == spec_frame_id(*args),
{
    proof {
        reveal_strlit("frameId");
    }
    let v = i64_arg(args, "frameId");
    #[verifier::truncate]
    (v as u32)
}

/// `setBreakpoints`: each line is verified at the line it landed on, or
/// reported unverified when no location was found for it.
pub fn breakpoints_body(locations: &[Option<i64>]) -> (r: Body)
    ensures
        r matches Body::Breakpoints(bps) && bps@.len() == locations@.len() && forall|i: int|
            0 <= i < locations@.len() ==> (#[trigger] bps@[i]).verified == (locations@[i] is Some)
                && bps@[i].line == locations@[i],
{
    let mut bps: Vec<BreakpointInfo> = Vec::new();
    let mut i: usize = 0;
    while i < locations.len()
        invariant
            i <= locations@.len(),
            bps@.len() == i,
            forall|j: int|
                0 <= j < i ==> (#[trigger] bps@[j]).verified == (locations@[j] is Some)
                    && bps@[j].line == locations@[j],
        decreases locations.len() - i,
    {
        let b = match locations[i] {
            Some(line) => BreakpointInfo { verified: true, line: Some(line) },
            None => BreakpointInfo { verified: false, line: None },
        };
        bps.push(b);
        i = i + 1;
    }
    let r = Body::Breakpoints(bps);
    assert(r matches Body::Breakpoints(b) && b@.len() == locations@.len());
    r
}

/// `stackTrace`: the frames of the backtrace and their number; a failed
/// backtrace is reported as such.
pub fn stack_trace_body(frames: Result<Vec<StackFrameInfo>, String>) -> (r: Result<Body, String>)
    ensures
        match frames {
            Ok(f) => r matches Ok(Body::StackTrace { stack_frames, total_frames }) && stack_frames
                == f && total_frames == f@.len(),
            Err(_) => r matches Err(e) && e@ == "Failed to get backtrace"@,
        },
{
    match frames {
        Ok(f) => {
            let total = f.len();
            Ok(Body::StackTrace { stack_frames: f, total_frames: total })
        },
        Err(_) => Err(owned("Failed to get backtrace")),
    }
}

} // verus!
