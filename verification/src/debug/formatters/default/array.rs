//! The formatter for arrays.
use vstd::prelude::*;

use crate::debug::formatters::ChildCounts;
use crate::debug::types::{resolve, resolves, DeclView, Type, TypeDeclaration, TypeGraph};

verus! {

/// Shows arrays.
pub struct ArrayFormatter;

impl ArrayFormatter {
    /// Whether the type, under its modifiers, is an array.
    pub fn matches(&self, ty: &Type, graph: &TypeGraph) -> (r: bool)
        requires
            resolves(graph.decls(), ty.root),
        ensures
            forall|f: nat|
                #[trigger] resolve(graph.decls(), ty.root, f) is Some ==> r == (resolve(
                    graph.decls(),
                    ty.root,
                    f,
                ) matches Some(Some(DeclView::Array { .. }))),
    {
        match ty.resolved(graph) {
            Some(TypeDeclaration::Array { .. }) => true,
            _ => false,
        }
    }

    /// An array shows no children of its own.
    pub fn num_children(&self) -> (r: ChildCounts)
        ensures
            r.indexed == 0 && r.named == 0,
    {
        ChildCounts::none()
    }
}

} // verus!
