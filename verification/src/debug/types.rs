//! The type graph read from DWARF: declarations keyed by their DIE, and the
//! questions the formatters ask of them (names, sizes, what a pointer
//! points to).
use std::collections::HashMap;
use vstd::prelude::*;

use crate::debug::die::{
    attr_of, AttrValue, AttrView, Die, DieView, DW_AT_BYTE_SIZE, DW_AT_COUNT, DW_AT_DATA_MEMBER_LOCATION, DW_AT_ENCODING, DW_AT_LOWER_BOUND, DW_AT_UPPER_BOUND, DW_TAG_ARRAY_TYPE, DW_TAG_ATOMIC_TYPE, DW_TAG_BASE_TYPE, DW_TAG_CLASS_TYPE, DW_TAG_CONST_TYPE, DW_TAG_MEMBER, DW_TAG_POINTER_TYPE, DW_TAG_REFERENCE_TYPE, DW_TAG_RESTRICT_TYPE, DW_TAG_RVALUE_REFERENCE_TYPE, DW_TAG_STRUCTURE_TYPE, DW_TAG_SUBRANGE_TYPE, DW_TAG_TYPEDEF, DW_TAG_UNION_TYPE, DW_TAG_VOLATILE_TYPE,
};
use crate::text::{
    concat, concat3, str_eq, i128_text, join, join_strings, owned, replace, replace_all, signed_decimal,
    views,
};

verus! {

/// A type is known by the DIE that declares it.
pub type TypeId = u64;

/// The namespaces enclosing a declaration, outermost first.
#[derive(Debug)]
pub struct NamespaceHierarchy(pub Vec<String>);

/// `name` qualified by the namespaces `ns`, with libc++'s inline
/// namespace `std::__2::` written as `std::`.
pub open spec fn qualified(ns: Seq<Seq<char>>, name: Seq<char>) -> Seq<char> {
    let q = if ns.len() == 0 {
        name
    } else {
        join(ns, "::"@) + "::"@ + name
    };
    replace_all(q, "std::__2::"@, "std::"@)
}

impl NamespaceHierarchy {
    /// The namespaces, as text.
    pub open spec fn names(self) -> Seq<Seq<char>> {
        views(self.0@)
    }

    /// `name` qualified by these namespaces (`a::b::name`), with the
    /// inline marker `std::__2::` of the C++ library reduced to `std::`.
    pub fn qualify(&self, name: &str) -> (r: String)
        ensures
            r@ == qualified(self.names(), name@),
    {
        proof {
            reveal_strlit("::");
            reveal_strlit("std::__2::");
            reveal_strlit("std::");
        }
        let q = if self.0.len() == 0 {
            owned(name)
        } else {
            let joined = join_strings(&self.0, "::");
            concat3(joined.as_str(), "::", name)
        };
        replace(q.as_str(), "std::__2::", "std::")
    }
}

impl Default for NamespaceHierarchy {
    fn default() -> (r: NamespaceHierarchy)
        ensures
            r.0@.len() == 0,
    {
        NamespaceHierarchy(Vec::new())
    }
}


/// A value that is either a constant or a DWARF expression to evaluate.
#[derive(Debug)]
pub enum Value {
    Constant(i64),
    /// The bytes of a DWARF location expression.
    Expr(Vec<u8>),
}

/// A [`Value`] as a mathematical value.
pub enum ValueView {
    Constant(i64),
    Expr(Seq<u8>),
}

impl View for Value {
    type V = ValueView;

    open spec fn view(&self) -> ValueView {
        match self {
            Value::Constant(c) => ValueView::Constant(*c),
            Value::Expr(e) => ValueView::Expr(e@),
        }
    }
}

/// A member of a structure, union or class.
#[derive(Debug)]
pub struct StructureMember {
    pub location: Option<Value>,
    pub name: Option<String>,
    pub ty: TypeId,
}

/// A [`StructureMember`] as a mathematical value.
pub struct MemberView {
    pub location: Option<ValueView>,
    pub name: Option<Seq<char>>,
    pub ty: TypeId,
}

/// The view of an optional string.
pub open spec fn opt_text(s: Option<String>) -> Option<Seq<char>> {
    match s {
        Some(t) => Some(t@),
        None => None,
    }
}

/// The view of an optional value.
pub open spec fn opt_value(v: Option<Value>) -> Option<ValueView> {
    match v {
        Some(x) => Some(x@),
        None => None,
    }
}

impl View for StructureMember {
    type V = MemberView;

    open spec fn view(&self) -> MemberView {
        MemberView { location: opt_value(self.location), name: opt_text(self.name), ty: self.ty }
    }
}

#[derive(Clone, Copy, PartialEq, Eq, Structural, Debug)]
pub enum ReferenceKind {
    Pointer,
    Reference,
    /// Equivalent to an rvalue reference in C++.
    Temporary,
}

#[derive(Clone, Copy, PartialEq, Eq, Structural, Debug)]
pub enum Modifier {
    TypeDef,
    Const,
    Volatile,
    Atomic,
    Restrict,
}

/// What the DWARF says a type is.
#[derive(Debug)]
pub enum TypeDeclaration {
    Scalar { name: String, byte_size: u64, encoding: u8 },
    Array {
        byte_size: Option<u64>,
        element_type: TypeId,
        lower_bound: Value,
        upper_bound: Option<Value>,
    },
    Referential { target: TypeId, kind: ReferenceKind },
    Structure { name: Option<String>, byte_size: u64, members: Vec<StructureMember> },
    ModifiedType { name: Option<String>, modifier: Modifier, inner: TypeId },
}

/// A [`TypeDeclaration`] as a mathematical value.
pub enum DeclView {
    Scalar { name: Seq<char>, byte_size: u64, encoding: u8 },
    Array {
        byte_size: Option<u64>,
        element_type: TypeId,
        lower_bound: ValueView,
        upper_bound: Option<ValueView>,
    },
    Referential { target: TypeId, kind: ReferenceKind },
    Structure { name: Option<Seq<char>>, byte_size: u64, members: Seq<MemberView> },
    ModifiedType { name: Option<Seq<char>>, modifier: Modifier, inner: TypeId },
}

/// The views of a list of members.
pub open spec fn member_views(m: Seq<StructureMember>) -> Seq<MemberView> {
    Seq::new(m.len(), |i: int| m[i]@)
}

impl View for TypeDeclaration {
    type V = DeclView;

    open spec fn view(&self) -> DeclView {
        match self {
            TypeDeclaration::Scalar { name, byte_size, encoding } => DeclView::Scalar {
                name: name@,
                byte_size: *byte_size,
                encoding: *encoding,
            },
            TypeDeclaration::Array { byte_size, element_type, lower_bound, upper_bound } => {
                DeclView::Array {
                    byte_size: *byte_size,
                    element_type: *element_type,
                    lower_bound: lower_bound@,
                    upper_bound: opt_value(*upper_bound),
                }
            },
            TypeDeclaration::Referential { target, kind } => DeclView::Referential {
                target: *target,
                kind: *kind,
            },
            TypeDeclaration::Structure { name, byte_size, members } => DeclView::Structure {
                name: opt_text(*name),
                byte_size: *byte_size,
                members: member_views(members@),
            },
            TypeDeclaration::ModifiedType { name, modifier, inner } => DeclView::ModifiedType {
                name: opt_text(*name),
                modifier: *modifier,
                inner: *inner,
            },
        }
    }
}

/// The declarations of a graph, by type.
pub type Decls = Map<TypeId, DeclView>;

/// The namespaces of each declaration, by type.
pub type Namespaces = Map<TypeId, Seq<Seq<char>>>;

/// The namespaces of `id`: none when unknown.
pub open spec fn namespace_of(ns: Namespaces, id: TypeId) -> Seq<Seq<char>> {
    if ns.contains_key(id) {
        ns[id]
    } else {
        Seq::empty()
    }
}

/// The text a reference kind adds after the target's name.
pub open spec fn reference_suffix(kind: ReferenceKind) -> Seq<char> {
    match kind {
        ReferenceKind::Pointer => "*"@,
        ReferenceKind::Reference => "&"@,
        ReferenceKind::Temporary => "&&"@,
    }
}

/// The text a modifier puts before the inner type's name.
pub open spec fn modifier_prefix(m: Modifier) -> Seq<char> {
    match m {
        Modifier::TypeDef => Seq::empty(),
        Modifier::Const => "const "@,
        Modifier::Volatile => "volatile "@,
        Modifier::Atomic => "_Atomic "@,
        Modifier::Restrict => "restrict "@,
    }
}

/// The element count of an array with bounds `lo` and `hi`, when both are
/// constants.
pub open spec fn array_count(lo: ValueView, hi: Option<ValueView>) -> Option<int> {
    match (lo, hi) {
        (ValueView::Constant(l), Some(ValueView::Constant(h))) => Some(h - l + 1),
        _ => None,
    }
}

/// The human-readable name of type `id` (e.g. `int`, `Point`, `int*`,
/// `char[16]`), found within `fuel` steps through the graph; `None` when
/// the steps run out, as they do on a cycle of pointers, arrays or
/// modifiers.
pub open spec fn name_of_type(g: Decls, ns: Namespaces, id: TypeId, fuel: nat) -> Option<Seq<char>>
    decreases fuel,
{
    if fuel == 0 {
        None
    } else if !g.contains_key(id) {
        Some("<unknown>"@)
    } else {
        match g[id] {
            DeclView::Scalar { name, .. } => Some(qualified(namespace_of(ns, id), name)),
            DeclView::Structure { name, .. } => match name {
                Some(n) => Some(qualified(namespace_of(ns, id), n)),
                None => Some("<anonymous>"@),
            },
            DeclView::Referential { target, kind } => match name_of_type(g, ns, target, (fuel - 1) as nat) {
                Some(inner) => Some(inner + reference_suffix(kind)),
                None => None,
            },
            DeclView::Array { element_type, lower_bound, upper_bound, .. } => match name_of_type(
                g,
                ns,
                element_type,
                (fuel - 1) as nat,
            ) {
                Some(elem) => match array_count(lower_bound, upper_bound) {
                    Some(c) => Some(elem + "["@ + signed_decimal(c) + "]"@),
                    None => Some(elem + "[]"@),
                },
                None => None,
            },
            DeclView::ModifiedType { name, modifier, inner } => match name {
                Some(n) => Some(qualified(namespace_of(ns, id), n)),
                None => match name_of_type(g, ns, inner, (fuel - 1) as nat) {
                    Some(i) => Some(modifier_prefix(modifier) + i),
                    None => None,
                },
            },
        }
    }
}

/// A name found with some fuel is found, the same, with more.
pub proof fn lemma_type_name_fuel(g: Decls, ns: Namespaces, id: TypeId, f1: nat, f2: nat)
    requires
        f1 <= f2,
        name_of_type(g, ns, id, f1) is Some,
    ensures
        name_of_type(g, ns, id, f2) == name_of_type(g, ns, id, f1),
    decreases f1,
{
    if f1 > 0 && g.contains_key(id) {
        match g[id] {
            DeclView::Referential { target, .. } => {
                lemma_type_name_fuel(g, ns, target, (f1 - 1) as nat, (f2 - 1) as nat);
            },
            DeclView::Array { element_type, .. } => {
                lemma_type_name_fuel(g, ns, element_type, (f1 - 1) as nat, (f2 - 1) as nat);
            },
            DeclView::ModifiedType { name, inner, .. } => {
                if name is None {
                    lemma_type_name_fuel(g, ns, inner, (f1 - 1) as nat, (f2 - 1) as nat);
                }
            },
            _ => {},
        }
    }
}

/// The first declaration reached from `id` by skipping modifiers, within
/// `fuel` steps: `Some(None)` when a declaration on the way is missing,
/// `None` when the steps run out.
pub open spec fn resolve(g: Decls, id: TypeId, fuel: nat) -> Option<Option<DeclView>>
    decreases fuel,
{
    if fuel == 0 {
        None
    } else if !g.contains_key(id) {
        Some(None)
    } else {
        match g[id] {
            DeclView::ModifiedType { inner, .. } => resolve(g, inner, (fuel - 1) as nat),
            d => Some(Some(d)),
        }
    }
}

/// A declaration found with some fuel is found, the same, with more.
pub proof fn lemma_resolve_fuel(g: Decls, id: TypeId, f1: nat, f2: nat)
    requires
        f1 <= f2,
        resolve(g, id, f1) is Some,
    ensures
        resolve(g, id, f2) == resolve(g, id, f1),
    decreases f1,
{
    if f1 > 0 && g.contains_key(id) {
        if let DeclView::ModifiedType { inner, .. } = g[id] {
            lemma_resolve_fuel(g, inner, (f1 - 1) as nat, (f2 - 1) as nat);
        }
    }
}

/// The type reached from `id` by discarding modifiers one at a time,
/// within `fuel` steps; a modifier of itself ends the walk.
pub open spec fn strip_modifiers(g: Decls, id: TypeId, fuel: nat) -> Option<TypeId>
    decreases fuel,
{
    if fuel == 0 {
        None
    } else if g.contains_key(id) && g[id] is ModifiedType && g[id]->ModifiedType_inner != id {
        strip_modifiers(g, g[id]->ModifiedType_inner, (fuel - 1) as nat)
    } else {
        Some(id)
    }
}

/// A type found with some fuel is found, the same, with more.
pub proof fn lemma_strip_modifiers_fuel(g: Decls, id: TypeId, f1: nat, f2: nat)
    requires
        f1 <= f2,
        strip_modifiers(g, id, f1) is Some,
    ensures
        strip_modifiers(g, id, f2) == strip_modifiers(g, id, f1),
    decreases f1,
{
    if f1 > 0 && g.contains_key(id) && g[id] is ModifiedType && g[id]->ModifiedType_inner != id {
        lemma_strip_modifiers_fuel(g, g[id]->ModifiedType_inner, (f1 - 1) as nat, (f2 - 1) as nat);
    }
}

/// Law: discarding modifiers is idempotent.  What `skip_modifiers` reaches
/// has no modifier left to discard: from it, `skip_one_modifier` and
/// `skip_modifiers` both stay where they are; a type with no modifier to
/// discard is reached unchanged.
pub proof fn law_skip_modifiers_idempotent(g: Decls, id: TypeId, f: nat)
    requires
        strip_modifiers(g, id, f) is Some,
    ensures
        ({
            let u = strip_modifiers(g, id, f)->0;
            &&& !(g.contains_key(u) && g[u] is ModifiedType && g[u]->ModifiedType_inner != u)
            &&& forall|f2: nat| f2 > 0 ==> #[trigger] strip_modifiers(g, u, f2) == Some(u)
            &&& !(g.contains_key(id) && g[id] is ModifiedType) ==> u == id
        }),
    decreases f,
{
    if g.contains_key(id) && g[id] is ModifiedType && g[id]->ModifiedType_inner != id {
        law_skip_modifiers_idempotent(g, g[id]->ModifiedType_inner, (f - 1) as nat);
    }
}

/// Law: the declaration `resolved` finds is that of the type
/// `skip_modifiers` reaches (none when that type has no declaration), and
/// it is never a modifier.
pub proof fn law_resolved_is_declaration_of_skipped(g: Decls, id: TypeId, f: nat)
    requires
        resolve(g, id, f) is Some,
    ensures
        strip_modifiers(g, id, f) is Some,
        ({
            let u = strip_modifiers(g, id, f)->0;
            resolve(g, id, f) == if g.contains_key(u) {
                Some(Some(g[u]))
            } else {
                Some(None::<DeclView>)
            }
        }),
        !(resolve(g, id, f) matches Some(Some(DeclView::ModifiedType { .. }))),
    decreases f,
{
    if g.contains_key(id) && g[id] is ModifiedType {
        let inner = g[id]->ModifiedType_inner;
        law_resolved_is_declaration_of_skipped(g, inner, (f - 1) as nat);
        if inner == id {
            lemma_resolve_fuel(g, id, (f - 1) as nat, f);
        }
    }
}

/// Law of type names: a pointer is named after its target with `*`, an
/// lvalue reference with `&`, an rvalue reference with `&&` (`int*`,
/// `int&`, `int&&`).
pub proof fn law_reference_names(g: Decls, ns: Namespaces, id: TypeId, f: nat, t: Seq<char>)
    requires
        g.contains_key(id),
        g[id] is Referential,
        name_of_type(g, ns, g[id]->Referential_target, f) == Some(t),
    ensures
        g[id]->Referential_kind == ReferenceKind::Pointer ==> name_of_type(g, ns, id, f + 1)
            == Some(t + "*"@),
        g[id]->Referential_kind == ReferenceKind::Reference ==> name_of_type(g, ns, id, f + 1)
            == Some(t + "&"@),
        g[id]->Referential_kind == ReferenceKind::Temporary ==> name_of_type(g, ns, id, f + 1)
            == Some(t + "&&"@),
{
    reveal_strlit("*");
    reveal_strlit("&");
    reveal_strlit("&&");
}

/// Law of type names: an unnamed modifier puts its keyword before the
/// inner type's name (`const int`, `volatile int`, `_Atomic int`,
/// `restrict int*`), and an unnamed typedef is named as what it stands
/// for.
pub proof fn law_modifier_names(g: Decls, ns: Namespaces, id: TypeId, f: nat, t: Seq<char>)
    requires
        g.contains_key(id),
        g[id] matches DeclView::ModifiedType { name: None, .. },
        name_of_type(g, ns, g[id]->ModifiedType_inner, f) == Some(t),
    ensures
        ({
            let n = name_of_type(g, ns, id, f + 1);
            let m = g[id]->ModifiedType_modifier;
            &&& m == Modifier::Const ==> n == Some("const "@ + t)
            &&& m == Modifier::Volatile ==> n == Some("volatile "@ + t)
            &&& m == Modifier::Atomic ==> n == Some("_Atomic "@ + t)
            &&& m == Modifier::Restrict ==> n == Some("restrict "@ + t)
            &&& m == Modifier::TypeDef ==> n == Some(t)
        }),
{
    assert(Seq::<char>::empty() + t =~= t);
}

/// Law of type names: an array with constant bounds `lo..=hi` is named
/// after its element with its length `hi - lo + 1` in brackets (`int[10]`
/// for `0..=9`), and one without known bounds with `[]`.
pub proof fn law_array_names(g: Decls, ns: Namespaces, id: TypeId, f: nat, t: Seq<char>)
    requires
        g.contains_key(id),
        g[id] is Array,
        name_of_type(g, ns, g[id]->Array_element_type, f) == Some(t),
    ensures
        ({
            let n = name_of_type(g, ns, id, f + 1);
            match (g[id]->Array_lower_bound, g[id]->Array_upper_bound) {
                (ValueView::Constant(lo), Some(ValueView::Constant(hi))) => n == Some(
                    t + "["@ + signed_decimal(hi - lo + 1) + "]"@,
                ),
                _ => n == Some(t + "[]"@),
            }
        }),
{
}

/// Law of type names: a pointer and an lvalue reference to the same
/// target are named differently, and each ends in its own mark.
pub proof fn law_pointer_and_reference_names_differ(
    g: Decls,
    ns: Namespaces,
    p: TypeId,
    r: TypeId,
    f: nat,
)
    requires
        g.contains_key(p),
        g.contains_key(r),
        g[p] matches DeclView::Referential { kind: ReferenceKind::Pointer, .. },
        g[r] matches DeclView::Referential { kind: ReferenceKind::Reference, .. },
        g[p]->Referential_target == g[r]->Referential_target,
        name_of_type(g, ns, g[p]->Referential_target, f) is Some,
    ensures
        name_of_type(g, ns, p, f + 1) is Some,
        name_of_type(g, ns, r, f + 1) is Some,
        name_of_type(g, ns, p, f + 1)->0.last() == '*',
        name_of_type(g, ns, r, f + 1)->0.last() == '&',
        name_of_type(g, ns, p, f + 1) != name_of_type(g, ns, r, f + 1),
{
    let t = name_of_type(g, ns, g[p]->Referential_target, f)->0;
    law_reference_names(g, ns, p, f, t);
    law_reference_names(g, ns, r, f, t);
    reveal_strlit("*");
    reveal_strlit("&");
    assert((t + "*"@).last() == '*');
    assert((t + "&"@).last() == '&');
}

/// Law of parsing: a C++ class, a union and a struct are read alike.
/// Whichever of the three tags an entry has, it parses to the same
/// declaration; with a byte size, that is a structure of the entry's
/// name and size whose members are read from its children.
pub proof fn law_class_union_struct_alike(d: DieView)
    requires
        d.tag == DW_TAG_CLASS_TYPE || d.tag == DW_TAG_UNION_TYPE || d.tag == DW_TAG_STRUCTURE_TYPE,
    ensures
        spec_parse_type_declaration(d) == spec_parse_type_declaration(
            DieView { tag: DW_TAG_STRUCTURE_TYPE, ..d },
        ),
        spec_u64_attr(d, DW_AT_BYTE_SIZE) is None ==> spec_parse_type_declaration(d) is None,
        spec_u64_attr(d, DW_AT_BYTE_SIZE) matches Some(n) ==> (spec_parse_type_declaration(d)
            matches Some(DeclView::Structure { name, byte_size, members }) && name == d.name
            && byte_size == n && members == members_of(d.children)),
{
    let s = DieView { tag: DW_TAG_STRUCTURE_TYPE, ..d };
    assert(spec_u64_attr(s, DW_AT_BYTE_SIZE) == spec_u64_attr(d, DW_AT_BYTE_SIZE));
}

/// The types declared in a program's DWARF, with the namespaces that
/// qualify their names.
pub struct TypeGraph {
    types: HashMap<TypeId, TypeDeclaration>,
    namespaces: HashMap<TypeId, NamespaceHierarchy>,
}

/// A type: a place in a [`TypeGraph`].
#[derive(Clone, Copy, PartialEq, Eq, Structural, Debug)]
pub struct Type {
    pub root: TypeId,
}

impl TypeGraph {
    /// The declarations, by type.
    pub closed spec fn decls(self) -> Decls {
        self.types@.map_values(|d: TypeDeclaration| d@)
    }

    /// The namespaces, by type.
    pub closed spec fn namespaces(self) -> Namespaces {
        self.namespaces@.map_values(|n: NamespaceHierarchy| n.names())
    }

    /// A graph with no types.
    pub fn empty() -> (r: TypeGraph)
        ensures
            r.decls() == Map::<TypeId, DeclView>::empty(),
            r.namespaces() == Map::<TypeId, Seq<Seq<char>>>::empty(),
    {
        let r = TypeGraph { types: HashMap::new(), namespaces: HashMap::new() };
        assert(r.decls() =~= Map::<TypeId, DeclView>::empty());
        assert(r.namespaces() =~= Map::<TypeId, Seq<Seq<char>>>::empty());
        r
    }

    /// Records the declaration of `id`, replacing any earlier one.
    pub fn insert(&mut self, id: TypeId, decl: TypeDeclaration)
        ensures
            final(self).decls() == old(self).decls().insert(id, decl@),
            final(self).namespaces() == old(self).namespaces(),
    {
        let ghost d = decl@;
        self.types.insert(id, decl);
        assert(self.decls() =~= old(self).decls().insert(id, d));
    }

    /// Records the namespaces enclosing `id`.
    pub fn set_namespace(&mut self, id: TypeId, ns: NamespaceHierarchy)
        ensures
            final(self).namespaces() == old(self).namespaces().insert(id, ns.names()),
            final(self).decls() == old(self).decls(),
    {
        let ghost n = ns.names();
        self.namespaces.insert(id, ns);
        assert(self.namespaces() =~= old(self).namespaces().insert(id, n));
    }

    /// The type rooted at `id`.
    pub fn get(&self, id: TypeId) -> (r: Type)
        ensures
            r.root == id,
    {
        Type { root: id }
    }

    /// Whether `id` has a declaration.
    pub fn contains(&self, id: TypeId) -> (r: bool)
        ensures
            r == self.decls().contains_key(id),
    {
        self.types.contains_key(&id)
    }

    /// The declaration of `id`.
    pub fn decl(&self, id: TypeId) -> (r: Option<&TypeDeclaration>)
        ensures
            match r {
                Some(d) => self.decls().contains_key(id) && self.decls()[id] == d@,
                None => !self.decls().contains_key(id),
            },
    {
        self.types.get(&id)
    }

    fn namespace_text(&self, id: TypeId, name: &str) -> (r: String)
        ensures
            r@ == qualified(namespace_of(self.namespaces(), id), name@),
    {
        match self.namespaces.get(&id) {
            Some(ns) => ns.qualify(name),
            None => NamespaceHierarchy(Vec::new()).qualify(name),
        }
    }

    fn decl_name(&self, id: TypeId, Ghost(fuel): Ghost<nat>) -> (r: String)
        requires
            name_of_type(self.decls(), self.namespaces(), id, fuel) is Some,
        ensures
            r@ == name_of_type(self.decls(), self.namespaces(), id, fuel)->0,
        decreases fuel,
    {
        proof {
            reveal_strlit("<unknown>");
            reveal_strlit("<anonymous>");
            reveal_strlit("*");
            reveal_strlit("&");
            reveal_strlit("&&");
            reveal_strlit("[");
            reveal_strlit("]");
            reveal_strlit("[]");
            reveal_strlit("const ");
            reveal_strlit("volatile ");
            reveal_strlit("_Atomic ");
            reveal_strlit("restrict ");
        }
        let decl = match self.decl(id) {
            Some(d) => d,
            None => {
                return owned("<unknown>");
            },
        };
        match decl {
            TypeDeclaration::Scalar { name, .. } => self.namespace_text(id, name.as_str()),
            TypeDeclaration::Structure { name, .. } => match name {
                Some(n) => self.namespace_text(id, n.as_str()),
                None => owned("<anonymous>"),
            },
            TypeDeclaration::Referential { target, kind } => {
                let inner = self.decl_name(*target, Ghost((fuel - 1) as nat));
                match kind {
                    ReferenceKind::Pointer => concat(inner.as_str(), "*"),
                    ReferenceKind::Reference => concat(inner.as_str(), "&"),
                    ReferenceKind::Temporary => concat(inner.as_str(), "&&"),
                }
            },
            TypeDeclaration::Array { element_type, lower_bound, upper_bound, .. } => {
                let elem = self.decl_name(*element_type, Ghost((fuel - 1) as nat));
                match (lower_bound, upper_bound) {
                    (Value::Constant(lo), Some(Value::Constant(hi))) => {
                        let c: i128 = *hi as i128 - *lo as i128 + 1;
                        let count = i128_text(c);
                        concat3(elem.as_str(), "[", concat(count.as_str(), "]").as_str())
                    },
                    _ => concat(elem.as_str(), "[]"),
                }
            },
            TypeDeclaration::ModifiedType { name, modifier, inner } => {
                if let Some(n) = name {
                    return self.namespace_text(id, n.as_str());
                }
                let inner_name = self.decl_name(*inner, Ghost((fuel - 1) as nat));
                match modifier {
                    Modifier::TypeDef => inner_name,
                    Modifier::Const => concat("const ", inner_name.as_str()),
                    Modifier::Volatile => concat("volatile ", inner_name.as_str()),
                    Modifier::Atomic => concat("_Atomic ", inner_name.as_str()),
                    Modifier::Restrict => concat("restrict ", inner_name.as_str()),
                }
            },
        }
    }
}


/// The name of `id` is found within some number of steps.
pub open spec fn has_name(g: Decls, ns: Namespaces, id: TypeId) -> bool {
    exists|f: nat| #[trigger] name_of_type(g, ns, id, f) is Some
}

/// The declaration behind the modifiers of `id` is reached within some
/// number of steps.
pub open spec fn resolves(g: Decls, id: TypeId) -> bool {
    exists|f: nat| #[trigger] resolve(g, id, f) is Some
}

/// Discarding the modifiers of `id` ends within some number of steps.
pub open spec fn strips(g: Decls, id: TypeId) -> bool {
    exists|f: nat| #[trigger] strip_modifiers(g, id, f) is Some
}

/// A resolved pointer or reference leads to a target whose modifiers can
/// all be discarded.
pub open spec fn target_strips(g: Decls, r: Option<Option<DeclView>>) -> bool {
    match r {
        Some(Some(DeclView::Referential { target, .. })) => strips(g, target),
        _ => true,
    }
}

/// The size in bytes a resolved declaration gives a type, `None` if unknown.
pub open spec fn decl_byte_size(d: Option<DeclView>) -> Option<u64> {
    match d {
        Some(DeclView::Scalar { byte_size, .. }) => Some(byte_size),
        Some(DeclView::Structure { byte_size, .. }) => Some(byte_size),
        Some(DeclView::Array { byte_size, .. }) => byte_size,
        Some(DeclView::Referential { .. }) => Some(4),
        _ => None,
    }
}

/// Whether `regex::Regex::new` accepts `pattern`, left uninterpreted.
pub uninterp spec fn regex_compiles(pattern: Seq<char>) -> bool;

/// Whether `regex::Regex::is_match` finds the compiled `pattern` somewhere
/// in `text`, left uninterpreted.
pub uninterp spec fn regex_is_match(pattern: Seq<char>, text: Seq<char>) -> bool;

/// A compiled regular expression, with the pattern it was compiled from.
pub struct CompiledRegex {
    re: regex::Regex,
    pattern: Ghost<Seq<char>>,
}

#[verifier::external_type_specification]
#[verifier::external_body]
pub struct ExRegex(regex::Regex);

/// Compiles `pattern` with `regex::Regex::new`; `None` when it does not
/// compile.  The contract claims only that the outcome is a function of
/// the pattern.
#[verifier::external_body]
fn compile_regex(pattern: &str) -> (r: Option<CompiledRegex>)
    ensures
        r is Some == regex_compiles(pattern@),
        r matches Some(c) ==> c.pattern@ == pattern@,
{
    match regex::Regex::new(pattern) {
        Ok(re) => Some(CompiledRegex { re, pattern: Ghost(pattern@) }),
        Err(_) => None,
    }
}

/// Whether the regular expression matches somewhere in `text`, with
/// `regex::Regex::is_match`.  The contract claims only that the outcome is
/// a function of the pattern and the text.
#[verifier::external_body]
fn regex_matches_text(re: &CompiledRegex, text: &str) -> (r: bool)
    ensures
        r == regex_is_match(re.pattern@, text@),
{
    re.re.is_match(text)
}

impl TypeGraph {
    fn resolve_from(&self, id: TypeId, Ghost(fuel): Ghost<nat>) -> (r: Option<&TypeDeclaration>)
        requires
            resolve(self.decls(), id, fuel) is Some,
        ensures
            match r {
                Some(d) => resolve(self.decls(), id, fuel) == Some(Some(d@)),
                None => resolve(self.decls(), id, fuel) == Some(None::<DeclView>),
            },
        decreases fuel,
    {
        match self.decl(id) {
            None => None,
            Some(d) => match d {
                TypeDeclaration::ModifiedType { inner, .. } => self.resolve_from(
                    *inner,
                    Ghost((fuel - 1) as nat),
                ),
                _ => Some(d),
            },
        }
    }

    fn strip_from(&self, id: TypeId, Ghost(fuel): Ghost<nat>) -> (r: TypeId)
        requires
            strip_modifiers(self.decls(), id, fuel) is Some,
        ensures
            strip_modifiers(self.decls(), id, fuel) == Some(r),
        decreases fuel,
    {
        let next = (Type { root: id }).skip_one_modifier(self);
        if next.root == id {
            id
        } else {
            self.strip_from(next.root, Ghost((fuel - 1) as nat))
        }
    }
}

impl Type {
    /// The type over the same graph rooted at `id`.
    pub fn child(&self, id: TypeId) -> (r: Type)
        ensures
            r.root == id,
    {
        Type { root: id }
    }

    /// Discards one modifier (const, volatile, typedef, ...) and returns
    /// the type underneath; the same type when there is none.
    pub fn skip_one_modifier(&self, graph: &TypeGraph) -> (r: Type)
        ensures
            graph.decls().contains_key(self.root) && graph.decls()[self.root] is ModifiedType
                ==> r.root == graph.decls()[self.root]->ModifiedType_inner,
            !(graph.decls().contains_key(self.root) && graph.decls()[self.root] is ModifiedType)
                ==> r == *self,
    {
        match graph.decl(self.root) {
            Some(TypeDeclaration::ModifiedType { inner, .. }) => self.child(*inner),
            _ => *self,
        }
    }

    /// Discards every modifier and returns the type underneath; the same
    /// type when there is none.
    pub fn skip_modifiers(&self, graph: &TypeGraph) -> (r: Type)
        requires
            strips(graph.decls(), self.root),
        ensures
            forall|f: nat|
                #[trigger] strip_modifiers(graph.decls(), self.root, f) is Some ==> strip_modifiers(
                    graph.decls(),
                    self.root,
                    f,
                ) == Some(r.root),
    {
        let ghost f = choose|f: nat| #[trigger] strip_modifiers(graph.decls(), self.root, f) is Some;
        let root = graph.strip_from(self.root, Ghost(f));
        proof {
            assert forall|f2: nat|
                #[trigger] strip_modifiers(graph.decls(), self.root, f2) is Some implies strip_modifiers(
                graph.decls(),
                self.root,
                f2,
            ) == Some(root) by {
                if f <= f2 {
                    lemma_strip_modifiers_fuel(graph.decls(), self.root, f, f2);
                } else {
                    lemma_strip_modifiers_fuel(graph.decls(), self.root, f2, f);
                }
            }
        }
        Type { root }
    }

    /// The declaration under the modifiers, `None` when one on the way is
    /// missing.
    pub fn resolved<'a>(&self, graph: &'a TypeGraph) -> (r: Option<&'a TypeDeclaration>)
        requires
            resolves(graph.decls(), self.root),
        ensures
            forall|f: nat|
                #[trigger] resolve(graph.decls(), self.root, f) is Some ==> resolve(
                    graph.decls(),
                    self.root,
                    f,
                ) == match r {
                    Some(d) => Some(Some(d@)),
                    None => Some(None::<DeclView>),
                },
    {
        let ghost f = choose|f: nat| #[trigger] resolve(graph.decls(), self.root, f) is Some;
        let r = graph.resolve_from(self.root, Ghost(f));
        proof {
            assert forall|f2: nat| #[trigger] resolve(graph.decls(), self.root, f2) is Some implies resolve(
                graph.decls(),
                self.root,
                f2,
            ) == resolve(graph.decls(), self.root, f) by {
                if f <= f2 {
                    lemma_resolve_fuel(graph.decls(), self.root, f, f2);
                } else {
                    lemma_resolve_fuel(graph.decls(), self.root, f2, f);
                }
            }
        }
        r
    }

    /// For pointer and reference types, the target type with its modifiers
    /// discarded (for `const int*`, `int`); modifiers on the pointer itself
    /// are looked through too.
    pub fn pointee(&self, graph: &TypeGraph) -> (r: Option<Type>)
        requires
            resolves(graph.decls(), self.root),
            forall|f: nat| #[trigger] target_strips(graph.decls(), resolve(graph.decls(), self.root, f)),
        ensures
            forall|f: nat|
                #[trigger] resolve(graph.decls(), self.root, f) is Some ==> match resolve(
                    graph.decls(),
                    self.root,
                    f,
                ) {
                    Some(Some(DeclView::Referential { target, .. })) => r is Some && forall|f2: nat|
                        #[trigger] strip_modifiers(graph.decls(), target, f2) is Some
                            ==> strip_modifiers(graph.decls(), target, f2) == Some(r->0.root),
                    _ => r is None,
                },
    {
        let ghost f = choose|f: nat| #[trigger] resolve(graph.decls(), self.root, f) is Some;
        match self.resolved(graph) {
            Some(TypeDeclaration::Referential { target, .. }) => {
                proof {
                    assert(target_strips(graph.decls(), resolve(graph.decls(), self.root, f)));
                }
                Some(self.child(*target).skip_modifiers(graph))
            },
            _ => None,
        }
    }

    /// Size in bytes of this type, or `None` if unknown; pointers take 4
    /// bytes on wasm32.
    pub fn byte_size(&self, graph: &TypeGraph) -> (r: Option<u64>)
        requires
            resolves(graph.decls(), self.root),
        ensures
            forall|f: nat|
                #[trigger] resolve(graph.decls(), self.root, f) is Some ==> r == decl_byte_size(
                    resolve(graph.decls(), self.root, f)->0,
                ),
    {
        match self.resolved(graph) {
            Some(TypeDeclaration::Scalar { byte_size, .. }) => Some(*byte_size),
            Some(TypeDeclaration::Structure { byte_size, .. }) => Some(*byte_size),
            Some(TypeDeclaration::Array { byte_size, .. }) => *byte_size,
            Some(TypeDeclaration::Referential { .. }) => Some(4),
            _ => None,
        }
    }

    /// Human-readable name of this type (e.g. `int`, `Point`, `int*`).
    pub fn name(&self, graph: &TypeGraph) -> (r: String)
        requires
            has_name(graph.decls(), graph.namespaces(), self.root),
        ensures
            forall|f: nat|
                #[trigger] name_of_type(graph.decls(), graph.namespaces(), self.root, f) is Some
                    ==> r@ == name_of_type(graph.decls(), graph.namespaces(), self.root, f)->0,
    {
        let ghost f = choose|f: nat|
            #[trigger] name_of_type(graph.decls(), graph.namespaces(), self.root, f) is Some;
        let r = graph.decl_name(self.root, Ghost(f));
        proof {
            assert forall|f2: nat|
                #[trigger] name_of_type(graph.decls(), graph.namespaces(), self.root, f2)
                    is Some implies r@ == name_of_type(
                graph.decls(),
                graph.namespaces(),
                self.root,
                f2,
            )->0 by {
                if f <= f2 {
                    lemma_type_name_fuel(graph.decls(), graph.namespaces(), self.root, f, f2);
                } else {
                    lemma_type_name_fuel(graph.decls(), graph.namespaces(), self.root, f2, f);
                }
            }
        }
        r
    }

    /// Whether the type's fully qualified name matches the regular
    /// expression; a pattern that does not compile matches nothing.
    pub fn matches(&self, graph: &TypeGraph, regex: &str) -> (r: bool)
        requires
            has_name(graph.decls(), graph.namespaces(), self.root),
        ensures
            forall|f: nat|
                #[trigger] name_of_type(graph.decls(), graph.namespaces(), self.root, f) is Some
                    ==> r == (regex_compiles(regex@) && regex_is_match(
                    regex@,
                    name_of_type(graph.decls(), graph.namespaces(), self.root, f)->0,
                )),
    {
        let name = self.name(graph);
        match compile_regex(regex) {
            Some(re) => regex_matches_text(&re, name.as_str()),
            None => false,
        }
    }
}


/// An attribute read as an unsigned number: `udata`, or non-negative `sdata`.
pub open spec fn spec_u64_attr(d: DieView, at: u16) -> Option<u64> {
    match attr_of(d.attrs, at) {
        Some(AttrView::Udata(v)) => Some(v),
        Some(AttrView::Sdata(s)) => if s >= 0 {
            Some(s as u64)
        } else {
            None
        },
        _ => None,
    }
}

/// An attribute read as an array bound or a member location: a constant,
/// or an expression.
pub open spec fn spec_array_bound(v: AttrView) -> Option<ValueView> {
    match v {
        AttrView::Udata(u) => Some(ValueView::Constant(u as i64)),
        AttrView::Sdata(s) => Some(ValueView::Constant(s)),
        AttrView::Exprloc(e) => Some(ValueView::Expr(e)),
        _ => None,
    }
}

/// An optional attribute read as an array bound.
pub open spec fn spec_bound_attr(d: DieView, at: u16) -> Option<ValueView> {
    match attr_of(d.attrs, at) {
        Some(v) => spec_array_bound(v),
        None => None,
    }
}

/// The bounds of a subrange entry: the lower bound (`0` by default) and
/// the upper bound, or failing that the count.
pub open spec fn spec_subrange(d: DieView) -> (ValueView, Option<ValueView>) {
    let lower = match spec_bound_attr(d, DW_AT_LOWER_BOUND) {
        Some(b) => b,
        None => ValueView::Constant(0),
    };
    let upper = match spec_bound_attr(d, DW_AT_UPPER_BOUND) {
        Some(b) => Some(b),
        None => spec_bound_attr(d, DW_AT_COUNT),
    };
    (lower, upper)
}

/// The bounds of the first subrange among `children`.
pub open spec fn first_subrange(children: Seq<DieView>) -> Option<(ValueView, Option<ValueView>)>
    decreases children.len(),
{
    if children.len() == 0 {
        None
    } else if children[0].tag == DW_TAG_SUBRANGE_TYPE {
        Some(spec_subrange(children[0]))
    } else {
        first_subrange(children.drop_first())
    }
}

/// A member entry read as a structure member.
pub open spec fn spec_member(d: DieView) -> Option<MemberView> {
    if d.tag != DW_TAG_MEMBER {
        None
    } else {
        match d.type_ref {
            Some(ty) => Some(
                MemberView {
                    location: spec_bound_attr(d, DW_AT_DATA_MEMBER_LOCATION),
                    name: d.name,
                    ty,
                },
            ),
            None => None,
        }
    }
}

/// The members among `children`, in order.
pub open spec fn members_of(children: Seq<DieView>) -> Seq<MemberView>
    decreases children.len(),
{
    if children.len() == 0 {
        Seq::empty()
    } else {
        let rest = members_of(children.drop_last());
        match spec_member(children.last()) {
            Some(m) => rest.push(m),
            None => rest,
        }
    }
}

/// The type an entry declares, if it declares one.
pub open spec fn spec_parse_type_declaration(d: DieView) -> Option<DeclView> {
    let t = d.tag;
    if t == DW_TAG_BASE_TYPE {
        match (spec_u64_attr(d, DW_AT_BYTE_SIZE), attr_of(d.attrs, DW_AT_ENCODING)) {
            (Some(size), Some(AttrView::Encoding(e))) => Some(
                DeclView::Scalar {
                    name: match d.name {
                        Some(n) => n,
                        None => Seq::empty(),
                    },
                    byte_size: size,
                    encoding: e,
                },
            ),
            _ => None,
        }
    } else if t == DW_TAG_POINTER_TYPE || t == DW_TAG_REFERENCE_TYPE || t
        == DW_TAG_RVALUE_REFERENCE_TYPE {
        match d.type_ref {
            Some(target) => Some(
                DeclView::Referential {
                    target,
                    kind: if t == DW_TAG_POINTER_TYPE {
                        ReferenceKind::Pointer
                    } else if t == DW_TAG_REFERENCE_TYPE {
                        ReferenceKind::Reference
                    } else {
                        ReferenceKind::Temporary
                    },
                },
            ),
            None => None,
        }
    } else if t == DW_TAG_TYPEDEF || t == DW_TAG_CONST_TYPE || t == DW_TAG_VOLATILE_TYPE || t
        == DW_TAG_ATOMIC_TYPE || t == DW_TAG_RESTRICT_TYPE {
        match d.type_ref {
            Some(inner) => Some(
                DeclView::ModifiedType {
                    name: d.name,
                    modifier: if t == DW_TAG_TYPEDEF {
                        Modifier::TypeDef
                    } else if t == DW_TAG_CONST_TYPE {
                        Modifier::Const
                    } else if t == DW_TAG_VOLATILE_TYPE {
                        Modifier::Volatile
                    } else if t == DW_TAG_ATOMIC_TYPE {
                        Modifier::Atomic
                    } else {
                        Modifier::Restrict
                    },
                    inner,
                },
            ),
            None => None,
        }
    } else if t == DW_TAG_ARRAY_TYPE {
        match d.type_ref {
            Some(element_type) => {
                let bounds = match first_subrange(d.children) {
                    Some(b) => b,
                    None => (ValueView::Constant(0), None),
                };
                Some(
                    DeclView::Array {
                        byte_size: spec_u64_attr(d, DW_AT_BYTE_SIZE),
                        element_type,
                        lower_bound: bounds.0,
                        upper_bound: bounds.1,
                    },
                )
            },
            None => None,
        }
    } else if t == DW_TAG_STRUCTURE_TYPE || t == DW_TAG_UNION_TYPE || t == DW_TAG_CLASS_TYPE {
        match spec_u64_attr(d, DW_AT_BYTE_SIZE) {
            Some(size) => Some(
                DeclView::Structure {
                    name: d.name,
                    byte_size: size,
                    members: members_of(d.children),
                },
            ),
            None => None,
        }
    } else {
        None
    }
}

fn copy_bytes(v: &Vec<u8>) -> (r: Vec<u8>)
    ensures
        r@ == v@,
{
    let mut out: Vec<u8> = Vec::new();
    let mut i: usize = 0;
    while i < v.len()
        invariant
            i <= v@.len(),
            out@ == v@.take(i as int),
        decreases v.len() - i,
    {
        out.push(v[i]);
        i = i + 1;
        assert(out@ =~= v@.take(i as int));
    }
    assert(v@.take(v@.len() as int) =~= v@);
    out
}

fn copy_name(n: &Option<String>) -> (r: Option<String>)
    ensures
        opt_text(r) == match *n {
            Some(s) => Some(s@),
            None => None::<Seq<char>>,
        },
{
    match n {
        Some(s) => Some(s.clone()),
        None => None,
    }
}

fn u64_attr(die: &Die, at: u16) -> (r: Option<u64>)
    ensures
        r == spec_u64_attr(die@, at),
{
    match die.attr_value(at) {
        Some(AttrValue::Udata(v)) => Some(*v),
        Some(AttrValue::Sdata(s)) => if *s >= 0 {
            Some(*s as u64)
        } else {
            None
        },
        _ => None,
    }
}

fn array_bound(value: &AttrValue) -> (r: Option<Value>)
    ensures
        opt_value(r) == spec_array_bound(value@),
{
    match value {
        AttrValue::Udata(u) => Some(Value::Constant(*u as i64)),
        AttrValue::Sdata(s) => Some(Value::Constant(*s)),
        AttrValue::Exprloc(e) => Some(Value::Expr(copy_bytes(e))),
        _ => None,
    }
}

fn bound_attr(die: &Die, at: u16) -> (r: Option<Value>)
    ensures
        opt_value(r) == spec_bound_attr(die@, at),
{
    match die.attr_value(at) {
        Some(v) => array_bound(v),
        None => None,
    }
}

fn parse_subrange(die: &Die) -> (r: (Value, Option<Value>))
    ensures
        (r.0@, opt_value(r.1)) == spec_subrange(die@),
{
    let lower = match bound_attr(die, DW_AT_LOWER_BOUND) {
        Some(b) => b,
        None => Value::Constant(0),
    };
    let upper = match bound_attr(die, DW_AT_UPPER_BOUND) {
        Some(b) => Some(b),
        None => bound_attr(die, DW_AT_COUNT),
    };
    (lower, upper)
}

fn parse_member(die: &Die) -> (r: Option<StructureMember>)
    ensures
        match r {
            Some(m) => spec_member(die@) == Some(m@),
            None => spec_member(die@) is None,
        },
{
    if die.tag != DW_TAG_MEMBER {
        return None;
    }
    let ty = match die.type_ref {
        Some(t) => t,
        None => {
            return None;
        },
    };
    let location = bound_attr(die, DW_AT_DATA_MEMBER_LOCATION);
    Some(StructureMember { location, name: copy_name(&die.name), ty })
}

fn find_subrange(die: &Die) -> (r: Option<(Value, Option<Value>)>)
    ensures
        match r {
            Some(b) => first_subrange(die@.children) == Some((b.0@, opt_value(b.1))),
            None => first_subrange(die@.children) is None,
        },
{
    let ghost kids = die@.children;
    let mut i: usize = 0;
    assert(kids.skip(0) =~= kids);
    while i < die.children.len()
        invariant
            kids == die@.children,
            i <= kids.len(),
            first_subrange(kids) == first_subrange(kids.skip(i as int)),
        decreases die.children.len() - i,
    {
        assert(kids.skip(i as int).drop_first() =~= kids.skip(i + 1));
        assert(kids.skip(i as int)[0] == kids[i as int]);
        assert(kids[i as int] == die.children@[i as int]@);
        if die.children[i].tag == DW_TAG_SUBRANGE_TYPE {
            return Some(parse_subrange(&die.children[i]));
        }
        i = i + 1;
    }
    assert(kids.skip(i as int).len() == 0);
    None
}

fn collect_members(die: &Die) -> (r: Vec<StructureMember>)
    ensures
        member_views(r@) == members_of(die@.children),
{
    let ghost kids = die@.children;
    let mut out: Vec<StructureMember> = Vec::new();
    let mut i: usize = 0;
    while i < die.children.len()
        invariant
            kids == die@.children,
            i <= kids.len(),
            member_views(out@) == members_of(kids.take(i as int)),
        decreases die.children.len() - i,
    {
        assert(kids.take(i + 1).drop_last() =~= kids.take(i as int));
        assert(kids.take(i + 1).last() == die.children@[i as int]@);
        let ghost before = out@;
        match parse_member(&die.children[i]) {
            Some(m) => {
                out.push(m);
                assert(member_views(out@) =~= member_views(before).push(out@.last()@));
            },
            None => {},
        }
        i = i + 1;
    }
    assert(kids.take(kids.len() as int) =~= kids);
    out
}

/// The type a DIE declares, if it declares one: base types, pointers and
/// references, modifiers (typedef, const, volatile, atomic, restrict),
/// arrays with their bounds, and structures, unions and classes with their
/// members.
pub fn parse_type_declaration(die: &Die) -> (r: Option<TypeDeclaration>)
    ensures
        match r {
            Some(d) => spec_parse_type_declaration(die@) == Some(d@),
            None => spec_parse_type_declaration(die@) is None,
        },
{
    let t = die.tag;
    if t == DW_TAG_BASE_TYPE {
        let byte_size = match u64_attr(die, DW_AT_BYTE_SIZE) {
            Some(b) => b,
            None => {
                return None;
            },
        };
        let encoding = match die.attr_value(DW_AT_ENCODING) {
            Some(AttrValue::Encoding(e)) => *e,
            _ => {
                return None;
            },
        };
        let name = match &die.name {
            Some(n) => n.clone(),
            None => String::new(),
        };
        Some(TypeDeclaration::Scalar { name, byte_size, encoding })
    } else if t == DW_TAG_POINTER_TYPE || t == DW_TAG_REFERENCE_TYPE || t
        == DW_TAG_RVALUE_REFERENCE_TYPE {
        let target = match die.type_ref {
            Some(x) => x,
            None => {
                return None;
            },
        };
        let kind = if t == DW_TAG_POINTER_TYPE {
            ReferenceKind::Pointer
        } else if t == DW_TAG_REFERENCE_TYPE {
            ReferenceKind::Reference
        } else {
            ReferenceKind::Temporary
        };
        Some(TypeDeclaration::Referential { target, kind })
    } else if t == DW_TAG_TYPEDEF || t == DW_TAG_CONST_TYPE || t == DW_TAG_VOLATILE_TYPE || t
        == DW_TAG_ATOMIC_TYPE || t == DW_TAG_RESTRICT_TYPE {
        let inner = match die.type_ref {
            Some(x) => x,
            None => {
                return None;
            },
        };
        let modifier = if t == DW_TAG_TYPEDEF {
            Modifier::TypeDef
        } else if t == DW_TAG_CONST_TYPE {
            Modifier::Const
        } else if t == DW_TAG_VOLATILE_TYPE {
            Modifier::Volatile
        } else if t == DW_TAG_ATOMIC_TYPE {
            Modifier::Atomic
        } else {
            Modifier::Restrict
        };
        Some(TypeDeclaration::ModifiedType { name: copy_name(&die.name), modifier, inner })
    } else if t == DW_TAG_ARRAY_TYPE {
        let element_type = match die.type_ref {
            Some(x) => x,
            None => {
                return None;
            },
        };
        let (lower_bound, upper_bound) = match find_subrange(die) {
            Some(b) => b,
            None => (Value::Constant(0), None),
        };
        Some(
            TypeDeclaration::Array {
                byte_size: u64_attr(die, DW_AT_BYTE_SIZE),
                element_type,
                lower_bound,
                upper_bound,
            },
        )
    } else if t == DW_TAG_STRUCTURE_TYPE || t == DW_TAG_UNION_TYPE || t == DW_TAG_CLASS_TYPE {
        let byte_size = match u64_attr(die, DW_AT_BYTE_SIZE) {
            Some(b) => b,
            None => {
                return None;
            },
        };
        let members = collect_members(die);
        Some(TypeDeclaration::Structure { name: copy_name(&die.name), byte_size, members })
    } else {
        None
    }
}


/// Every entry of a forest of DIEs, each before its children, trees in order.
pub open spec fn preorder(ds: Seq<DieView>) -> Seq<DieView>
    decreases ds,
{
    if ds.len() == 0 {
        Seq::empty()
    } else {
        seq![ds[0]] + preorder(ds[0].children) + preorder(ds.drop_first())
    }
}

/// The declarations recorded by visiting `entries` in order, starting from
/// `m`: each entry that declares a type records it under its reference,
/// replacing what an earlier entry recorded there.
pub open spec fn record_types(m: Decls, entries: Seq<DieView>) -> Decls
    decreases entries.len(),
{
    if entries.len() == 0 {
        m
    } else {
        let m2 = match spec_parse_type_declaration(entries[0]) {
            Some(d) => m.insert(entries[0].die_ref, d),
            None => m,
        };
        record_types(m2, entries.drop_first())
    }
}

proof fn lemma_preorder_append(a: Seq<DieView>, b: Seq<DieView>)
    ensures
        preorder(a + b) == preorder(a) + preorder(b),
    decreases a.len(),
{
    if a.len() == 0 {
        assert(a + b =~= b);
        assert(preorder(a) + preorder(b) =~= preorder(b));
    } else {
        assert((a + b).drop_first() =~= a.drop_first() + b);
        lemma_preorder_append(a.drop_first(), b);
        assert((a + b)[0] == a[0]);
        assert(preorder(a + b) =~= preorder(a) + preorder(b));
    }
}

proof fn lemma_record_types_append(m: Decls, a: Seq<DieView>, b: Seq<DieView>)
    ensures
        record_types(m, a + b) == record_types(record_types(m, a), b),
    decreases a.len(),
{
    if a.len() == 0 {
        assert(a + b =~= b);
    } else {
        assert((a + b).drop_first() =~= a.drop_first() + b);
        assert((a + b)[0] == a[0]);
        let m2 = match spec_parse_type_declaration(a[0]) {
            Some(d) => m.insert(a[0].die_ref, d),
            None => m,
        };
        lemma_record_types_append(m2, a.drop_first(), b);
    }
}

/// The first of `entries` whose reference is `id`.
pub open spec fn first_entry(entries: Seq<DieView>, id: TypeId) -> Option<DieView>
    decreases entries.len(),
{
    if entries.len() == 0 {
        None
    } else if entries[0].die_ref == id {
        Some(entries[0])
    } else {
        first_entry(entries.drop_first(), id)
    }
}

proof fn lemma_first_entry_append(a: Seq<DieView>, b: Seq<DieView>, id: TypeId)
    ensures
        first_entry(a + b, id) == (if first_entry(a, id) is Some {
            first_entry(a, id)
        } else {
            first_entry(b, id)
        }),
    decreases a.len(),
{
    if a.len() == 0 {
        assert(a + b =~= b);
    } else {
        assert((a + b).drop_first() =~= a.drop_first() + b);
        assert((a + b)[0] == a[0]);
        lemma_first_entry_append(a.drop_first(), b, id);
    }
}

/// The entry `id` within the tree rooted at `d`, searched in visiting order.
fn find_entry(d: &Die, id: TypeId) -> (r: Option<&Die>)
    ensures
        match r {
            Some(x) => first_entry(preorder(seq![d@]), id) == Some(x@),
            None => first_entry(preorder(seq![d@]), id) is None,
        },
    decreases d,
{
    let ghost kids = d@.children;
    proof {
        let one = seq![d@];
        assert(one[0] == d@);
        assert(one.drop_first() =~= Seq::<DieView>::empty());
        assert(preorder(Seq::<DieView>::empty()) =~= Seq::<DieView>::empty());
        assert(preorder(one) =~= seq![d@] + preorder(kids));
    }
    if d.die_ref == id {
        proof {
            assert((seq![d@] + preorder(kids))[0] == d@);
        }
        return Some(d);
    }
    proof {
        assert(kids.take(0) =~= Seq::<DieView>::empty());
        assert(seq![d@] + preorder(kids.take(0)) =~= seq![d@]);
        assert(seq![d@].drop_first() =~= Seq::<DieView>::empty());
        assert(seq![d@][0] == d@);
        assert(first_entry(Seq::<DieView>::empty(), id) is None);
        assert(first_entry(seq![d@], id) is None);
    }
    let mut i: usize = 0;
    while i < d.children.len()
        invariant
            kids == d@.children,
            preorder(seq![d@]) == seq![d@] + preorder(kids),
            i <= kids.len(),
            d.die_ref != id,
            first_entry(seq![d@] + preorder(kids.take(i as int)), id) is None,
        decreases d.children.len() - i,
    {
        assert(decreases_to!(d => d.children@[i as int]));
        let found = find_entry(&d.children[i], id);
        proof {
            let c = d.children@[i as int]@;
            assert(kids[i as int] == c);
            assert(kids.take(i + 1) =~= kids.take(i as int) + seq![c]);
            lemma_preorder_append(kids.take(i as int), seq![c]);
            let before = seq![d@] + preorder(kids.take(i as int));
            assert(seq![d@] + preorder(kids.take(i + 1)) =~= before + preorder(seq![c]));
            lemma_first_entry_append(before, preorder(seq![c]), id);
            assert(kids =~= kids.take(i + 1) + kids.skip(i + 1));
            lemma_preorder_append(kids.take(i + 1), kids.skip(i + 1));
            assert(seq![d@] + preorder(kids) =~= (seq![d@] + preorder(kids.take(i + 1))) + preorder(
                kids.skip(i + 1),
            ));
            lemma_first_entry_append(
                seq![d@] + preorder(kids.take(i + 1)),
                preorder(kids.skip(i + 1)),
                id,
            );
        }
        match found {
            Some(x) => {
                return Some(x);
            },
            None => {},
        }
        i = i + 1;
    }
    proof {
        assert(kids.take(kids.len() as int) =~= kids);
    }
    None
}

/// The name of the first of `children` that is called `name` and declares
/// a type of the graph.
pub open spec fn nested_with_name(children: Seq<DieView>, name: Seq<char>, decls: Decls) -> Option<
    TypeId,
>
    decreases children.len(),
{
    if children.len() == 0 {
        None
    } else if children[0].name == Some(name) && decls.contains_key(children[0].die_ref) {
        Some(children[0].die_ref)
    } else {
        nested_with_name(children.drop_first(), name, decls)
    }
}

impl Type {
    /// The debugging entry of this type: the first entry of the units, in
    /// visiting order, whose reference is the type's.
    pub fn die<'a>(&self, units: &'a Vec<Die>) -> (r: Option<&'a Die>)
        ensures
            ({
                let found = first_entry(preorder(Seq::new(units@.len(), |i: int| units@[i]@)), self.root);
                match r {
                    Some(x) => found == Some(x@),
                    None => found is None,
                }
            }),
    {
        let ghost roots = Seq::new(units@.len(), |i: int| units@[i]@);
        proof {
            assert(roots.take(0) =~= Seq::<DieView>::empty());
            assert(preorder(Seq::<DieView>::empty()) =~= Seq::<DieView>::empty());
        }
        let mut i: usize = 0;
        while i < units.len()
            invariant
                roots == Seq::new(units@.len(), |i: int| units@[i]@),
                i <= units@.len(),
                first_entry(preorder(roots.take(i as int)), self.root) is None,
            decreases units.len() - i,
        {
            let found = find_entry(&units[i], self.root);
            proof {
                let c = units@[i as int]@;
                assert(roots.take(i + 1) =~= roots.take(i as int) + seq![c]);
                lemma_preorder_append(roots.take(i as int), seq![c]);
                lemma_first_entry_append(preorder(roots.take(i as int)), preorder(seq![c]), self.root);
                assert(roots =~= roots.take(i + 1) + roots.skip(i + 1));
                lemma_preorder_append(roots.take(i + 1), roots.skip(i + 1));
                lemma_first_entry_append(
                    preorder(roots.take(i + 1)),
                    preorder(roots.skip(i + 1)),
                    self.root,
                );
            }
            match found {
                Some(x) => {
                    return Some(x);
                },
                None => {},
            }
            i = i + 1;
        }
        proof {
            assert(roots.take(roots.len() as int) =~= roots);
        }
        None
    }

    /// The type declared by the first direct child of `die` (this type's
    /// entry) that is called `name` and is in the graph.
    pub fn direct_nested_type_with_name(&self, die: &Die, graph: &TypeGraph, name: &str) -> (r:
        Result<Type, String>)
        ensures
            match nested_with_name(die@.children, name@, graph.decls()) {
                Some(id) => r == Ok::<Type, String>(Type { root: id }),
                None => r matches Err(e) && e@ == "No such type named "@ + name@,
            },
    {
        let ghost kids = die@.children;
        let mut i: usize = 0;
        proof {
            assert(kids.skip(0) =~= kids);
        }
        while i < die.children.len()
            invariant
                kids == die@.children,
                i <= kids.len(),
                nested_with_name(kids, name@, graph.decls()) == nested_with_name(
                    kids.skip(i as int),
                    name@,
                    graph.decls(),
                ),
            decreases die.children.len() - i,
        {
            let child = &die.children[i];
            proof {
                assert(kids.skip(i as int)[0] == child@);
                assert(kids.skip(i as int).drop_first() =~= kids.skip(i + 1));
            }
            let named = match &child.name {
                Some(n) => str_eq(n.as_str(), name),
                None => false,
            };
            if named && graph.contains(child.die_ref) {
                return Ok(graph.get(child.die_ref));
            }
            i = i + 1;
        }
        Err(concat("No such type named ", name))
    }
}

impl TypeGraph {
    fn add_die(&mut self, die: &Die)
        ensures
            final(self).decls() == record_types(old(self).decls(), preorder(seq![die@])),
            final(self).namespaces() == old(self).namespaces(),
        decreases die,
    {
        let ghost start = self.decls();
        match parse_type_declaration(die) {
            Some(decl) => self.insert(die.die_ref, decl),
            None => {},
        }
        let ghost kids = die@.children;
        proof {
            let one = seq![die@];
            assert(one[0] == die@);
            assert(one.drop_first() =~= Seq::<DieView>::empty());
            let m2 = match spec_parse_type_declaration(die@) {
                Some(d) => start.insert(die@.die_ref, d),
                None => start,
            };
            assert(record_types(m2, Seq::<DieView>::empty()) == m2);
            assert(self.decls() == record_types(start, seq![die@]));
            assert(kids.take(0) =~= Seq::<DieView>::empty());
            assert(preorder(Seq::<DieView>::empty()) =~= Seq::<DieView>::empty());
            assert(seq![die@] + preorder(kids.take(0)) =~= seq![die@]);
        }
        let mut i: usize = 0;
        while i < die.children.len()
            invariant
                kids == die@.children,
                i <= kids.len(),
                self.decls() == record_types(start, seq![die@] + preorder(kids.take(i as int))),
                self.namespaces() == old(self).namespaces(),
            decreases die.children.len() - i,
        {
            let ghost before = self.decls();
            assert(decreases_to!(die => die.children@[i as int]));
            self.add_die(&die.children[i]);
            proof {
                let c = die.children@[i as int]@;
                assert(kids[i as int] == c);
                assert(kids.take(i + 1) =~= kids.take(i as int) + seq![c]);
                lemma_preorder_append(kids.take(i as int), seq![c]);
                lemma_record_types_append(
                    start,
                    seq![die@] + preorder(kids.take(i as int)),
                    preorder(seq![c]),
                );
                assert(seq![die@] + preorder(kids.take(i as int)) + preorder(seq![c]) =~= seq![
                    die@,
                ] + preorder(kids.take(i + 1)));
            }
            i = i + 1;
        }
        proof {
            assert(kids.take(kids.len() as int) =~= kids);
            let one = seq![die@];
            assert(one[0] == die@);
            assert(one.drop_first() =~= Seq::<DieView>::empty());
            assert(preorder(Seq::<DieView>::empty()) =~= Seq::<DieView>::empty());
            assert(preorder(one) =~= seq![die@] + preorder(kids));
        }
    }

    /// The graph of every type declared in the units, visiting each unit's
    /// entries from its root, each entry before its children.
    pub fn new(units: &Vec<Die>) -> (r: TypeGraph)
        ensures
            r.decls() == record_types(
                Map::<TypeId, DeclView>::empty(),
                preorder(Seq::new(units@.len(), |i: int| units@[i]@)),
            ),
            r.namespaces() == Map::<TypeId, Seq<Seq<char>>>::empty(),
    {
        let mut g = TypeGraph::empty();
        let ghost roots = Seq::new(units@.len(), |i: int| units@[i]@);
        let mut i: usize = 0;
        while i < units.len()
            invariant
                roots == Seq::new(units@.len(), |i: int| units@[i]@),
                i <= units@.len(),
                g.decls() == record_types(
                    Map::<TypeId, DeclView>::empty(),
                    preorder(roots.take(i as int)),
                ),
                g.namespaces() == Map::<TypeId, Seq<Seq<char>>>::empty(),
            decreases units.len() - i,
        {
            g.add_die(&units[i]);
            proof {
                let c = units@[i as int]@;
                assert(roots.take(i + 1) =~= roots.take(i as int) + seq![c]);
                lemma_preorder_append(roots.take(i as int), seq![c]);
                lemma_record_types_append(
                    Map::<TypeId, DeclView>::empty(),
                    preorder(roots.take(i as int)),
                    preorder(seq![c]),
                );
            }
            i = i + 1;
        }
        assert(roots.take(roots.len() as int) =~= roots);
        g
    }
}

} // verus!
