//! The pass only ever adds names: it keeps the shape of the tree, every
//! identifier in it and every name that a function or class expression has.

use crate::ast::{IdentView, NodeView, PropNameView};
use crate::pass::{infer, infer_key, infer_key_value, infer_seq};
use crate::prepare::spec_prepare;
use crate::renamer::{propagate, propagate_key, propagate_seq, stops_name};
use vstd::prelude::*;

verus! {

/// A name that was there is still there: `after` is `before`, or `before` was
/// absent.
pub open spec fn name_kept(before: Option<IdentView>, after: Option<IdentView>) -> bool {
    before is Some ==> after == before
}

/// `after` is `before` with names given to some of its anonymous function and
/// class expressions: both trees have the same shape, every identifier and
/// every name that `before` holds is unchanged in `after`.
pub open spec fn only_names_added(before: NodeView, after: NodeView) -> bool
    decreases before,
{
    match (before, after) {
        (NodeView::Ident(a), NodeView::Ident(b)) => a == b,
        (NodeView::Fn(a), NodeView::Fn(b)) => name_kept(a.ident, b.ident)
            && only_names_added_seq(a.body, b.body),
        (NodeView::Class(a), NodeView::Class(b)) => name_kept(a.ident, b.ident)
            && only_names_added_seq(a.body, b.body),
        (NodeView::KeyValue(a), NodeView::KeyValue(b)) => only_names_added_key(a.key, b.key)
            && only_names_added(*a.value, *b.value),
        (NodeView::VarDeclarator(a), NodeView::VarDeclarator(b)) => only_names_added(
            *a.name,
            *b.name,
        ) && match (a.init, b.init) {
            (Some(x), Some(y)) => only_names_added(*x, *y),
            (None, None) => true,
            _ => false,
        },
        (NodeView::Assign(a), NodeView::Assign(b)) => a.op == b.op && only_names_added(
            *a.left,
            *b.left,
        ) && only_names_added(*a.right, *b.right),
        (
            NodeView::Tree { kind: kind_a, children: children_a },
            NodeView::Tree { kind: kind_b, children: children_b },
        ) => kind_a == kind_b && only_names_added_seq(children_a, children_b),
        _ => false,
    }
}

/// [`only_names_added`] for property keys.
pub open spec fn only_names_added_key(before: PropNameView, after: PropNameView) -> bool
    decreases before,
{
    match (before, after) {
        (PropNameView::Computed(a), PropNameView::Computed(b)) => only_names_added(*a, *b),
        _ => before == after,
    }
}

/// [`only_names_added`] for siblings, one by one.
pub open spec fn only_names_added_seq(before: Seq<NodeView>, after: Seq<NodeView>) -> bool
    decreases before,
{
    before.len() == after.len() && forall|i: int|
        0 <= i < before.len() ==> only_names_added(#[trigger] before[i], after[i])
}

/// A tree is itself with no name added.
proof fn lemma_unchanged(node: NodeView)
    ensures
        only_names_added(node, node),
    decreases node,
{
    match node {
        NodeView::Ident(_) => {},
        NodeView::Fn(f) => lemma_unchanged_seq(f.body),
        NodeView::Class(c) => lemma_unchanged_seq(c.body),
        NodeView::KeyValue(p) => {
            lemma_unchanged_key(p.key);
            lemma_unchanged(*p.value);
        },
        NodeView::VarDeclarator(d) => {
            lemma_unchanged(*d.name);
            if let Some(e) = d.init {
                lemma_unchanged(*e);
            }
        },
        NodeView::Assign(a) => {
            lemma_unchanged(*a.left);
            lemma_unchanged(*a.right);
        },
        NodeView::Tree { kind, children } => lemma_unchanged_seq(children),
    }
}

/// As [`lemma_unchanged`], for a property key.
proof fn lemma_unchanged_key(key: PropNameView)
    ensures
        only_names_added_key(key, key),
    decreases key,
{
    if let PropNameView::Computed(e) = key {
        lemma_unchanged(*e);
    }
}

/// As [`lemma_unchanged`], for siblings.
proof fn lemma_unchanged_seq(nodes: Seq<NodeView>)
    ensures
        only_names_added_seq(nodes, nodes),
    decreases nodes,
{
    assert forall|i: int| 0 <= i < nodes.len() implies only_names_added(
        #[trigger] nodes[i],
        nodes[i],
    ) by {
        lemma_unchanged(nodes[i]);
    }
}

/// Adding names to a tree that had names added is adding names.
proof fn lemma_added_twice(a: NodeView, b: NodeView, c: NodeView)
    requires
        only_names_added(a, b),
        only_names_added(b, c),
    ensures
        only_names_added(a, c),
    decreases a,
{
    match (a, b, c) {
        (NodeView::Fn(x), NodeView::Fn(y), NodeView::Fn(z)) => {
            lemma_added_twice_seq(x.body, y.body, z.body);
        },
        (NodeView::Class(x), NodeView::Class(y), NodeView::Class(z)) => {
            lemma_added_twice_seq(x.body, y.body, z.body);
        },
        (NodeView::KeyValue(x), NodeView::KeyValue(y), NodeView::KeyValue(z)) => {
            lemma_added_twice_key(x.key, y.key, z.key);
            lemma_added_twice(*x.value, *y.value, *z.value);
        },
        (NodeView::VarDeclarator(x), NodeView::VarDeclarator(y), NodeView::VarDeclarator(z)) => {
            lemma_added_twice(*x.name, *y.name, *z.name);
            if let (Some(p), Some(q), Some(r)) = (x.init, y.init, z.init) {
                lemma_added_twice(*p, *q, *r);
            }
        },
        (NodeView::Assign(x), NodeView::Assign(y), NodeView::Assign(z)) => {
            lemma_added_twice(*x.left, *y.left, *z.left);
            lemma_added_twice(*x.right, *y.right, *z.right);
        },
        (
            NodeView::Tree { children: x, .. },
            NodeView::Tree { children: y, .. },
            NodeView::Tree { children: z, .. },
        ) => {
            lemma_added_twice_seq(x, y, z);
        },
        _ => {},
    }
}

/// As [`lemma_added_twice`], for a property key.
proof fn lemma_added_twice_key(a: PropNameView, b: PropNameView, c: PropNameView)
    requires
        only_names_added_key(a, b),
        only_names_added_key(b, c),
    ensures
        only_names_added_key(a, c),
    decreases a,
{
    if let (PropNameView::Computed(x), PropNameView::Computed(y), PropNameView::Computed(z)) = (
        a,
        b,
        c,
    ) {
        lemma_added_twice(*x, *y, *z);
    }
}

/// As [`lemma_added_twice`], for siblings.
proof fn lemma_added_twice_seq(a: Seq<NodeView>, b: Seq<NodeView>, c: Seq<NodeView>)
    requires
        only_names_added_seq(a, b),
        only_names_added_seq(b, c),
    ensures
        only_names_added_seq(a, c),
    decreases a,
{
    assert forall|i: int| 0 <= i < a.len() implies only_names_added(#[trigger] a[i], c[i]) by {
        lemma_added_twice(a[i], b[i], c[i]);
    }
}

/// A renamer changes a tree only by giving a name to anonymous function or
/// class expressions.
pub proof fn lemma_propagate_only_adds_names(pending: Option<IdentView>, node: NodeView)
    ensures
        only_names_added(node, propagate(pending, node).0),
    decreases node,
{
    match node {
        NodeView::Ident(_) => {},
        NodeView::Fn(f) => lemma_unchanged_seq(f.body),
        NodeView::Class(c) => lemma_unchanged_seq(c.body),
        NodeView::KeyValue(p) => {
            lemma_propagate_key_only_adds_names(pending, p.key);
            lemma_propagate_only_adds_names(propagate_key(pending, p.key).1, *p.value);
        },
        NodeView::VarDeclarator(d) => {
            lemma_propagate_only_adds_names(pending, *d.name);
            if let Some(e) = d.init {
                lemma_propagate_only_adds_names(propagate(pending, *d.name).1, *e);
            }
        },
        NodeView::Assign(a) => {
            lemma_propagate_only_adds_names(pending, *a.left);
            lemma_propagate_only_adds_names(propagate(pending, *a.left).1, *a.right);
        },
        NodeView::Tree { kind, children } => {
            if stops_name(kind) {
                lemma_unchanged_seq(children);
            } else {
                lemma_propagate_seq_only_adds_names(pending, children);
            }
        },
    }
}

/// As [`lemma_propagate_only_adds_names`], for a property key.
proof fn lemma_propagate_key_only_adds_names(pending: Option<IdentView>, key: PropNameView)
    ensures
        only_names_added_key(key, propagate_key(pending, key).0),
    decreases key,
{
    if let PropNameView::Computed(e) = key {
        lemma_propagate_only_adds_names(pending, *e);
    }
}

/// As [`lemma_propagate_only_adds_names`], for siblings.
proof fn lemma_propagate_seq_only_adds_names(pending: Option<IdentView>, nodes: Seq<NodeView>)
    ensures
        only_names_added_seq(nodes, propagate_seq(pending, nodes).0),
    decreases nodes,
{
    if nodes.len() > 0 {
        let front = nodes.drop_last();
        lemma_propagate_seq_only_adds_names(pending, front);
        lemma_propagate_only_adds_names(propagate_seq(pending, front).1, nodes.last());
        let after = propagate_seq(pending, nodes).0;
        assert forall|i: int| 0 <= i < nodes.len() implies only_names_added(
            #[trigger] nodes[i],
            after[i],
        ) by {
            if i < front.len() {
                assert(nodes[i] == front[i]);
            }
        }
    }
}

/// The pass never takes a name away, never changes one, and changes nothing
/// else: its output is its input with names given to some anonymous function
/// and class expressions.
pub proof fn lemma_infer_only_adds_names(node: NodeView)
    ensures
        only_names_added(node, infer(node)),
    decreases node,
{
    match node {
        NodeView::Ident(_) => {},
        NodeView::Fn(f) => lemma_infer_seq_only_adds_names(f.body),
        NodeView::Class(c) => lemma_infer_seq_only_adds_names(c.body),
        NodeView::KeyValue(p) => {
            lemma_infer_key_only_adds_names(p.key);
            lemma_infer_only_adds_names(*p.value);
            let value = infer(*p.value);
            let named = *infer_key_value(p).value;
            if let NodeView::Fn(f) = value {
                lemma_unchanged_seq(f.body);
            }
            lemma_unchanged(value);
            lemma_added_twice(*p.value, value, named);
        },
        NodeView::VarDeclarator(d) => {
            lemma_infer_only_adds_names(*d.name);
            if let Some(e) = d.init {
                lemma_infer_only_adds_names(*e);
                if let NodeView::Ident(name) = infer(*d.name) {
                    let candidate = Some(spec_prepare(name, false));
                    lemma_propagate_only_adds_names(candidate, infer(*e));
                    lemma_added_twice(*e, infer(*e), propagate(candidate, infer(*e)).0);
                }
            }
        },
        NodeView::Assign(a) => {
            lemma_infer_only_adds_names(*a.left);
            lemma_infer_only_adds_names(*a.right);
            if let NodeView::Ident(target) = infer(*a.left) {
                lemma_propagate_only_adds_names(Some(target), infer(*a.right));
                lemma_added_twice(
                    *a.right,
                    infer(*a.right),
                    propagate(Some(target), infer(*a.right)).0,
                );
            }
        },
        NodeView::Tree { kind, children } => lemma_infer_seq_only_adds_names(children),
    }
}

/// As [`lemma_infer_only_adds_names`], for a property key.
proof fn lemma_infer_key_only_adds_names(key: PropNameView)
    ensures
        only_names_added_key(key, infer_key(key)),
    decreases key,
{
    if let PropNameView::Computed(e) = key {
        lemma_infer_only_adds_names(*e);
    }
}

/// As [`lemma_infer_only_adds_names`], for siblings.
pub(crate) proof fn lemma_infer_seq_only_adds_names(nodes: Seq<NodeView>)
    ensures
        only_names_added_seq(nodes, infer_seq(nodes)),
    decreases nodes,
{
    assert forall|i: int| 0 <= i < nodes.len() implies only_names_added(
        #[trigger] nodes[i],
        infer_seq(nodes)[i],
    ) by {
        lemma_infer_only_adds_names(nodes[i]);
    }
}

/// Two trees, each of which is the other with names added, are one tree.
pub(crate) proof fn lemma_added_both_ways(a: NodeView, b: NodeView)
    requires
        only_names_added(a, b),
        only_names_added(b, a),
    ensures
        a == b,
    decreases a,
{
    match (a, b) {
        (NodeView::Fn(x), NodeView::Fn(y)) => lemma_added_both_ways_seq(x.body, y.body),
        (NodeView::Class(x), NodeView::Class(y)) => lemma_added_both_ways_seq(x.body, y.body),
        (NodeView::KeyValue(x), NodeView::KeyValue(y)) => {
            lemma_added_both_ways_key(x.key, y.key);
            lemma_added_both_ways(*x.value, *y.value);
        },
        (NodeView::VarDeclarator(x), NodeView::VarDeclarator(y)) => {
            lemma_added_both_ways(*x.name, *y.name);
            if let (Some(p), Some(q)) = (x.init, y.init) {
                lemma_added_both_ways(*p, *q);
            }
        },
        (NodeView::Assign(x), NodeView::Assign(y)) => {
            lemma_added_both_ways(*x.left, *y.left);
            lemma_added_both_ways(*x.right, *y.right);
        },
        (NodeView::Tree { children: x, .. }, NodeView::Tree { children: y, .. }) => {
            lemma_added_both_ways_seq(x, y);
        },
        _ => {},
    }
}

/// As [`lemma_added_both_ways`], for a property key.
proof fn lemma_added_both_ways_key(a: PropNameView, b: PropNameView)
    requires
        only_names_added_key(a, b),
        only_names_added_key(b, a),
    ensures
        a == b,
    decreases a,
{
    if let (PropNameView::Computed(x), PropNameView::Computed(y)) = (a, b) {
        lemma_added_both_ways(*x, *y);
    }
}

/// As [`lemma_added_both_ways`], for siblings.
proof fn lemma_added_both_ways_seq(a: Seq<NodeView>, b: Seq<NodeView>)
    requires
        only_names_added_seq(a, b),
        only_names_added_seq(b, a),
    ensures
        a == b,
    decreases a,
{
    assert forall|i: int| 0 <= i < a.len() implies a[i] == b[i] by {
        lemma_added_both_ways(a[i], b[i]);
    }
}

} // verus!
