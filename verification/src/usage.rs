//! Finding out whether a sub-tree mentions an identifier.
//!
//! The scan goes by the identifier's text alone: neither the position nor the
//! binding that an occurrence resolves to is looked at. Every identifier of
//! the sub-tree counts, whether it is read, bound, used as a property key or
//! the name of a nested function or class.

use crate::ast::{
    ClassExpr, FnExpr, Ident, IdentView, Node, NodeView, PropName, PropNameView, node_view,
    nodes_view, opt_ident_view,
};
use vstd::prelude::*;

verus! {

/// Whether an optional identifier is present and has the text `sym`.
pub open spec fn is_named(ident: Option<IdentView>, sym: Seq<char>) -> bool {
    ident matches Some(i) && i.sym == sym
}

/// Whether some identifier in `node` has the text `sym`.
pub open spec fn mentions(node: NodeView, sym: Seq<char>) -> bool
    decreases node,
{
    match node {
        NodeView::Ident(i) => i.sym == sym,
        NodeView::Fn(f) => is_named(f.ident, sym) || any_mentions(f.body, sym),
        NodeView::Class(c) => is_named(c.ident, sym) || any_mentions(c.body, sym),
        NodeView::KeyValue(p) => key_mentions(p.key, sym) || mentions(*p.value, sym),
        NodeView::VarDeclarator(d) => mentions(*d.name, sym) || match d.init {
            Some(e) => mentions(*e, sym),
            None => false,
        },
        NodeView::Assign(a) => mentions(*a.left, sym) || mentions(*a.right, sym),
        NodeView::Tree { kind, children } => any_mentions(children, sym),
    }
}

/// Whether some identifier in a property key has the text `sym`.
pub open spec fn key_mentions(key: PropNameView, sym: Seq<char>) -> bool
    decreases key,
{
    match key {
        PropNameView::Ident(i) => i.sym == sym,
        PropNameView::Str(_) => false,
        PropNameView::Num(_) => false,
        PropNameView::Computed(e) => mentions(*e, sym),
    }
}

/// Whether some identifier in one of `nodes` has the text `sym`.
pub open spec fn any_mentions(nodes: Seq<NodeView>, sym: Seq<char>) -> bool
    decreases nodes,
{
    exists|i: int| 0 <= i < nodes.len() && mentions(#[trigger] nodes[i], sym)
}

fn name_matches(name: &Option<Ident>, ident: &Ident) -> (found: bool)
    ensures
        found == is_named(opt_ident_view(*name), ident@.sym),
{
    match name {
        Some(i) => i.sym == ident.sym,
        None => false,
    }
}

/// Scans `node` for an identifier with the text of `ident`.
pub fn references(ident: &Ident, node: &Node) -> (found: bool)
    ensures
        found == mentions(node@, ident@.sym),
    decreases node,
{
    match node {
        Node::Ident(i) => i.sym == ident.sym,
        Node::Fn(f) => name_matches(&f.ident, ident) || references_any(ident, &f.body),
        Node::Class(c) => name_matches(&c.ident, ident) || references_any(ident, &c.body),
        Node::KeyValue(p) => references_key(ident, &p.key) || references(ident, &p.value),
        Node::VarDeclarator(d) => {
            references(ident, &d.name) || match &d.init {
                Some(e) => references(ident, e),
                None => false,
            }
        },
        Node::Assign(a) => references(ident, &a.left) || references(ident, &a.right),
        Node::Tree { kind, children } => references_any(ident, children),
    }
}

/// Scans a property key for an identifier with the text of `ident`.
pub fn references_key(ident: &Ident, key: &PropName) -> (found: bool)
    ensures
        found == key_mentions(key@, ident@.sym),
    decreases key,
{
    match key {
        PropName::Ident(i) => i.sym == ident.sym,
        PropName::Str(_) => false,
        PropName::Num(_) => false,
        PropName::Computed(e) => references(ident, e),
    }
}

/// Scans each of `nodes` for an identifier with the text of `ident`.
pub fn references_any(ident: &Ident, nodes: &Vec<Node>) -> (found: bool)
    ensures
        found == any_mentions(nodes_view(nodes@), ident@.sym),
    decreases nodes,
{
    let mut i: usize = 0;
    while i < nodes.len()
        invariant
            i <= nodes.len(),
            forall|j: int| 0 <= j < nodes.len() ==> decreases_to!(nodes => #[trigger] nodes[j]),
            forall|j: int| 0 <= j < i ==> !mentions(#[trigger] nodes_view(nodes@)[j], ident@.sym),
        decreases nodes.len() - i,
    {
        if references(ident, &nodes[i]) {
            assert(mentions(nodes_view(nodes@)[i as int], ident@.sym));
            return true;
        }
        i += 1;
    }
    false
}

} // verus!
