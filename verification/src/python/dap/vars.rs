//! The per-stop table of Python variable handles.
use std::collections::HashMap;
use vstd::prelude::*;

use crate::dap::types::VariableInfo;

verus! {

/// One variable in a Python stack frame, with its children already
/// expanded by the worker.
#[derive(Debug)]
pub struct PythonVar {
    pub name: String,
    pub value: String,
    pub children: Vec<PythonVar>,
    /// True when the children are positional (list, tuple) rather than
    /// named (dict, object).
    pub indexed: bool,
}

/// A Python variable as a mathematical value.
pub struct PythonVarView {
    pub name: Seq<char>,
    pub value: Seq<char>,
    pub children: Seq<PythonVarView>,
    pub indexed: bool,
}

/// The view of a Python variable, subtree included.
pub open spec fn var_view(v: PythonVar) -> PythonVarView
    decreases v,
{
    PythonVarView {
        name: v.name@,
        value: v.value@,
        children: Seq::new(
            v.children@.len(),
            |i: int|
                if 0 <= i < v.children@.len() {
                    var_view(v.children@[i])
                } else {
                    arbitrary()
                },
        ),
        indexed: v.indexed,
    }
}

impl View for PythonVar {
    type V = PythonVarView;

    open spec fn view(&self) -> PythonVarView {
        var_view(*self)
    }
}

/// The views of a list of Python variables.
pub open spec fn var_views(v: Seq<PythonVar>) -> Seq<PythonVarView> {
    Seq::new(v.len(), |i: int| v[i]@)
}

impl PythonVar {
    /// A copy of this variable and its whole subtree.
    pub fn duplicate(&self) -> (r: PythonVar)
        ensures
            r@ == self@,
        decreases self,
    {
        let mut children: Vec<PythonVar> = Vec::new();
        let mut i: usize = 0;
        while i < self.children.len()
            invariant
                i <= self.children@.len(),
                children@.len() == i,
                forall|j: int| 0 <= j < i ==> #[trigger] children@[j]@ == self.children@[j]@,
            decreases self.children.len() - i,
        {
            assert(decreases_to!(self => self.children@[i as int]));
            let c = self.children[i].duplicate();
            children.push(c);
            i = i + 1;
        }
        let r = PythonVar {
            name: self.name.clone(),
            value: self.value.clone(),
            children,
            indexed: self.indexed,
        };
        assert forall|j: int| 0 <= j < self.children@.len() implies r@.children[j]
            == self@.children[j] by {
            assert(r.children@[j]@ == self.children@[j]@);
        }
        assert(r@.children =~= self@.children);
        r
    }
}

/// A copy of each variable of `v`, subtrees included.
pub fn duplicate_vars(v: &[PythonVar]) -> (r: Vec<PythonVar>)
    ensures
        var_views(r@) == var_views(v@),
{
    let mut out: Vec<PythonVar> = Vec::new();
    let mut i: usize = 0;
    while i < v.len()
        invariant
            i <= v@.len(),
            out@.len() == i,
            forall|j: int| 0 <= j < i ==> #[trigger] out@[j]@ == v@[j]@,
        decreases v.len() - i,
    {
        out.push(v[i].duplicate());
        i = i + 1;
    }
    assert(var_views(out@) =~= var_views(v@));
    out
}

/// The table of handles handed out for one stop.
///
/// Handles are numbered from `1` in the order they are given out, and the
/// table is emptied on every new stop, so that a handle from an earlier
/// stop never resolves.
pub struct PythonVars {
    next_ref: i64,
    levels: HashMap<i64, Vec<PythonVar>>,
}

impl PythonVars {
    #[verifier::type_invariant]
    spec fn inv(self) -> bool {
        &&& 0 <= self.next_ref
        &&& forall|k: i64| #[trigger] self.levels@.contains_key(k) ==> 1 <= k <= self.next_ref
    }

    /// The last handle given out since the table was last emptied (`0` if none).
    pub closed spec fn last_ref(self) -> i64 {
        self.next_ref
    }

    /// The variables stored under each live handle.
    pub closed spec fn table(self) -> Map<i64, Seq<PythonVarView>> {
        self.levels@.map_values(|v: Vec<PythonVar>| var_views(v@))
    }

    /// An empty table.
    pub fn new() -> (r: PythonVars)
        ensures
            r.last_ref() == 0,
            r.table() == Map::<i64, Seq<PythonVarView>>::empty(),
    {
        let r = PythonVars { next_ref: 0, levels: HashMap::new() };
        assert(r.table() =~= Map::<i64, Seq<PythonVarView>>::empty());
        r
    }

    /// Drops every handle and starts numbering again from `1`.
    pub fn clear(&mut self)
        ensures
            final(self).last_ref() == 0,
            final(self).table() == Map::<i64, Seq<PythonVarView>>::empty(),
    {
        proof {
            use_type_invariant(&*self);
        }
        self.levels = HashMap::new();
        self.next_ref = 0;
        assert(self.table() =~= Map::<i64, Seq<PythonVarView>>::empty());
    }

    /// Stores one level of variables under a fresh handle and returns it.
    pub fn allocate(&mut self, level: Vec<PythonVar>) -> (r: i64)
        requires
            old(self).last_ref() < i64::MAX,
        ensures
            r == old(self).last_ref() + 1,
            final(self).last_ref() == r,
            !old(self).table().contains_key(r),
            final(self).table() == old(self).table().insert(r, var_views(level@)),
    {
        proof {
            use_type_invariant(&*self);
        }
        let mut levels: HashMap<i64, Vec<PythonVar>> = HashMap::new();
        std::mem::swap(&mut levels, &mut self.levels);
        let r = self.next_ref + 1;
        let ghost lv = var_views(level@);
        levels.insert(r, level);
        self.next_ref = r;
        self.levels = levels;
        assert(self.table() =~= old(self).table().insert(r, lv));
        r
    }

    /// The last handle given out (`0` if none since the last `clear`).
    pub fn last_handle(&self) -> (r: i64)
        ensures
            r == self.last_ref(),
    {
        self.next_ref
    }

    /// The level stored under `reference`, if that handle is live.
    pub fn get(&self, reference: i64) -> (r: Option<&Vec<PythonVar>>)
        ensures
            match r {
                Some(v) => self.table().contains_key(reference) && self.table()[reference]
                    == var_views(v@),
                None => !self.table().contains_key(reference),
            },
            0 <= self.last_ref(),
            forall|k: i64| #[trigger] self.table().contains_key(k) ==> 1 <= k <= self.last_ref(),
    {
        proof {
            use_type_invariant(self);
        }
        self.levels.get(&reference)
    }
}


/// `after` is what `allocate(level)` leaves of `before`.
pub open spec fn allocated_from(before: PythonVars, after: PythonVars, level: Seq<PythonVarView>) -> bool {
    &&& before.last_ref() < i64::MAX
    &&& after.last_ref() == before.last_ref() + 1
    &&& after.table() == before.table().insert(after.last_ref(), level)
}

/// Law of the handle table: after a `clear`, the handles given out are
/// `1, 2, ...` in the order the levels were stored, each resolves through
/// `get` to its own level, and no other handle resolves.
pub proof fn law_handles_follow_allocations(states: Seq<PythonVars>, levels: Seq<Seq<PythonVarView>>)
    requires
        states.len() == levels.len() + 1,
        states[0].last_ref() == 0,
        states[0].table() == Map::<i64, Seq<PythonVarView>>::empty(),
        forall|i: int| 0 <= i < levels.len() ==> allocated_from(#[trigger] states[i], states[i + 1], levels[i]),
    ensures
        states.last().last_ref() == levels.len(),
        forall|k: i64| #[trigger] states.last().table().contains_key(k) <==> 1 <= k <= levels.len(),
        forall|k: i64| 1 <= k <= levels.len() ==> #[trigger] states.last().table()[k] == levels[k - 1],
    decreases levels.len(),
{
    if levels.len() > 0 {
        let n = levels.len() - 1;
        let prev = states.drop_last();
        assert forall|i: int| 0 <= i < levels.drop_last().len() implies allocated_from(
            #[trigger] prev[i],
            prev[i + 1],
            levels.drop_last()[i],
        ) by {
            assert(allocated_from(states[i], states[i + 1], levels[i]));
        }
        law_handles_follow_allocations(prev, levels.drop_last());
        assert(allocated_from(states[n], states[n + 1], levels[n]));
        assert(prev.last() == states[n]);
    }
}

impl PythonVars {
    /// Renders one node as a DAP variable.  A node with children gets a
    /// fresh handle under which a copy of its children is stored, and a
    /// hint of how many there are (indexed for lists and tuples, named
    /// otherwise); a leaf gets handle `0` and leaves the table as it was.
    pub fn to_dap(&mut self, node: &PythonVar) -> (r: VariableInfo)
        requires
            old(self).last_ref() < i64::MAX,
        ensures
            r.name@ == node.name@,
            r.value@ == node.value@,
            r.type_label is None,
            r.memory_reference is None,
            node.children@.len() == 0 ==> {
                &&& r.variables_reference == 0
                &&& r.indexed_variables is None
                &&& r.named_variables is None
                &&& final(self).last_ref() == old(self).last_ref()
                &&& final(self).table() == old(self).table()
            },
            node.children@.len() > 0 ==> {
                &&& r.variables_reference == old(self).last_ref() + 1
                &&& final(self).last_ref() == r.variables_reference
                &&& final(self).table() == old(self).table().insert(
                    r.variables_reference,
                    var_views(node.children@),
                )
                &&& node.indexed ==> r.indexed_variables == Some(node.children@.len() as usize)
                    && r.named_variables is None
                &&& !node.indexed ==> r.named_variables == Some(node.children@.len() as usize)
                    && r.indexed_variables is None
            },
    {
        let mut out = VariableInfo {
            name: node.name.clone(),
            value: node.value.clone(),
            type_label: None,
            variables_reference: 0,
            indexed_variables: None,
            named_variables: None,
            memory_reference: None,
        };
        if node.children.len() > 0 {
            let count = node.children.len();
            let reference = self.allocate(duplicate_vars(node.children.as_slice()));
            out.variables_reference = reference;
            if node.indexed {
                out.indexed_variables = Some(count);
            } else {
                out.named_variables = Some(count);
            }
        }
        out
    }
}

impl Default for PythonVars {
    fn default() -> (r: PythonVars)
        ensures
            r.last_ref() == 0,
            r.table() == Map::<i64, Seq<PythonVarView>>::empty(),
    {
        PythonVars::new()
    }
}

} // verus!
