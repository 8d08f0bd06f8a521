//! Counting the anonymous expressions that a pending name can reach, and what
//! a renamer does according to that count.

use crate::ast::{IdentView, NodeView, PropNameView};
use crate::pass::{infer, infer_assignment, infer_declarator, infer_key, infer_key_value, infer_seq};
use crate::prepare::spec_prepare;
use crate::renamer::{propagate, propagate_key, propagate_seq, stops_name};
use vstd::prelude::*;

verus! {

/// How many anonymous function and class expressions a pending name can
/// reach from `node`.
pub open spec fn open_targets(node: NodeView) -> nat
    decreases node,
{
    match node {
        NodeView::Ident(_) => 0,
        NodeView::Fn(f) => if f.ident is None {
            1
        } else {
            0
        },
        NodeView::Class(c) => if c.ident is None {
            1
        } else {
            0
        },
        NodeView::KeyValue(p) => open_targets_key(p.key) + open_targets(*p.value),
        NodeView::VarDeclarator(d) => open_targets(*d.name) + match d.init {
            Some(e) => open_targets(*e),
            None => 0,
        },
        NodeView::Assign(a) => open_targets(*a.left) + open_targets(*a.right),
        NodeView::Tree { kind, children } => if stops_name(kind) {
            0
        } else {
            open_targets_seq(children)
        },
    }
}

/// [`open_targets`] for a property key.
pub open spec fn open_targets_key(key: PropNameView) -> nat
    decreases key,
{
    match key {
        PropNameView::Computed(e) => open_targets(*e),
        _ => 0,
    }
}

/// [`open_targets`] for siblings, added up.
pub open spec fn open_targets_seq(nodes: Seq<NodeView>) -> nat
    decreases nodes,
{
    if nodes.len() == 0 {
        0
    } else {
        open_targets_seq(nodes.drop_last()) + open_targets(nodes.last())
    }
}

/// The targets of siblings are those of all but the last and those of the last.
proof fn lemma_targets_of_push(front: Seq<NodeView>, last: NodeView)
    ensures
        open_targets_seq(front.push(last)) == open_targets_seq(front) + open_targets(last),
{
    assert(front.push(last).drop_last() =~= front);
}

/// Where no anonymous expression is within reach, a renamer changes nothing
/// and keeps its name.
pub(crate) proof fn lemma_no_target_no_change(pending: Option<IdentView>, node: NodeView)
    requires
        open_targets(node) == 0,
    ensures
        propagate(pending, node) == (node, pending),
    decreases node,
{
    match node {
        NodeView::Ident(_) => {},
        NodeView::Fn(f) => {},
        NodeView::Class(c) => {},
        NodeView::KeyValue(p) => {
            lemma_no_target_no_change_key(pending, p.key);
            lemma_no_target_no_change(pending, *p.value);
        },
        NodeView::VarDeclarator(d) => {
            lemma_no_target_no_change(pending, *d.name);
            if let Some(e) = d.init {
                lemma_no_target_no_change(pending, *e);
            }
        },
        NodeView::Assign(a) => {
            lemma_no_target_no_change(pending, *a.left);
            lemma_no_target_no_change(pending, *a.right);
        },
        NodeView::Tree { kind, children } => {
            if !stops_name(kind) {
                lemma_no_target_no_change_seq(pending, children);
            }
        },
    }
}

/// As [`lemma_no_target_no_change`], for a property key.
proof fn lemma_no_target_no_change_key(pending: Option<IdentView>, key: PropNameView)
    requires
        open_targets_key(key) == 0,
    ensures
        propagate_key(pending, key) == (key, pending),
    decreases key,
{
    if let PropNameView::Computed(e) = key {
        lemma_no_target_no_change(pending, *e);
    }
}

/// As [`lemma_no_target_no_change`], for siblings.
proof fn lemma_no_target_no_change_seq(pending: Option<IdentView>, nodes: Seq<NodeView>)
    requires
        open_targets_seq(nodes) == 0,
    ensures
        propagate_seq(pending, nodes) == (nodes, pending),
    decreases nodes,
{
    if nodes.len() > 0 {
        lemma_no_target_no_change_seq(pending, nodes.drop_last());
        lemma_no_target_no_change(pending, nodes.last());
    }
}

/// A renamer opens no new target.
proof fn lemma_propagate_no_new_target(pending: Option<IdentView>, node: NodeView)
    ensures
        open_targets(propagate(pending, node).0) <= open_targets(node),
    decreases node,
{
    match node {
        NodeView::Ident(_) => {},
        NodeView::Fn(f) => {},
        NodeView::Class(c) => {},
        NodeView::KeyValue(p) => {
            lemma_propagate_no_new_target_key(pending, p.key);
            lemma_propagate_no_new_target(propagate_key(pending, p.key).1, *p.value);
        },
        NodeView::VarDeclarator(d) => {
            lemma_propagate_no_new_target(pending, *d.name);
            if let Some(e) = d.init {
                lemma_propagate_no_new_target(propagate(pending, *d.name).1, *e);
            }
        },
        NodeView::Assign(a) => {
            lemma_propagate_no_new_target(pending, *a.left);
            lemma_propagate_no_new_target(propagate(pending, *a.left).1, *a.right);
        },
        NodeView::Tree { kind, children } => {
            if !stops_name(kind) {
                lemma_propagate_no_new_target_seq(pending, children);
            }
        },
    }
}

/// As [`lemma_propagate_no_new_target`], for a property key.
proof fn lemma_propagate_no_new_target_key(pending: Option<IdentView>, key: PropNameView)
    ensures
        open_targets_key(propagate_key(pending, key).0) <= open_targets_key(key),
    decreases key,
{
    if let PropNameView::Computed(e) = key {
        lemma_propagate_no_new_target(pending, *e);
    }
}

/// As [`lemma_propagate_no_new_target`], for siblings.
proof fn lemma_propagate_no_new_target_seq(pending: Option<IdentView>, nodes: Seq<NodeView>)
    ensures
        open_targets_seq(propagate_seq(pending, nodes).0) <= open_targets_seq(nodes),
    decreases nodes,
{
    if nodes.len() > 0 {
        let (front, after_front) = propagate_seq(pending, nodes.drop_last());
        lemma_propagate_no_new_target_seq(pending, nodes.drop_last());
        lemma_propagate_no_new_target(after_front, nodes.last());
        lemma_targets_of_push(front, propagate(after_front, nodes.last()).0);
    }
}

/// With at most one target within reach, a renamer either changes nothing or
/// leaves no target open.
pub(crate) proof fn lemma_one_target_named_or_kept(pending: Option<IdentView>, node: NodeView)
    requires
        open_targets(node) <= 1,
    ensures
        propagate(pending, node).0 == node || open_targets(propagate(pending, node).0) == 0,
    decreases node,
{
    match node {
        NodeView::Ident(_) => {},
        NodeView::Fn(f) => {},
        NodeView::Class(c) => {},
        NodeView::KeyValue(p) => {
            let after_key = propagate_key(pending, p.key).1;
            if open_targets_key(p.key) == 0 {
                lemma_no_target_no_change_key(pending, p.key);
                lemma_one_target_named_or_kept(after_key, *p.value);
            } else {
                lemma_one_target_named_or_kept_key(pending, p.key);
                lemma_no_target_no_change(after_key, *p.value);
            }
        },
        NodeView::VarDeclarator(d) => {
            let after_name = propagate(pending, *d.name).1;
            if open_targets(*d.name) == 0 {
                lemma_no_target_no_change(pending, *d.name);
                if let Some(e) = d.init {
                    lemma_one_target_named_or_kept(after_name, *e);
                }
            } else {
                lemma_one_target_named_or_kept(pending, *d.name);
                if let Some(e) = d.init {
                    lemma_no_target_no_change(after_name, *e);
                }
            }
        },
        NodeView::Assign(a) => {
            let after_left = propagate(pending, *a.left).1;
            if open_targets(*a.left) == 0 {
                lemma_no_target_no_change(pending, *a.left);
                lemma_one_target_named_or_kept(after_left, *a.right);
            } else {
                lemma_one_target_named_or_kept(pending, *a.left);
                lemma_no_target_no_change(after_left, *a.right);
            }
        },
        NodeView::Tree { kind, children } => {
            if !stops_name(kind) {
                lemma_one_target_named_or_kept_seq(pending, children);
            }
        },
    }
}

/// As [`lemma_one_target_named_or_kept`], for a property key.
proof fn lemma_one_target_named_or_kept_key(pending: Option<IdentView>, key: PropNameView)
    requires
        open_targets_key(key) <= 1,
    ensures
        propagate_key(pending, key).0 == key || open_targets_key(propagate_key(pending, key).0)
            == 0,
    decreases key,
{
    if let PropNameView::Computed(e) = key {
        lemma_one_target_named_or_kept(pending, *e);
    }
}

/// As [`lemma_one_target_named_or_kept`], for siblings.
proof fn lemma_one_target_named_or_kept_seq(pending: Option<IdentView>, nodes: Seq<NodeView>)
    requires
        open_targets_seq(nodes) <= 1,
    ensures
        propagate_seq(pending, nodes).0 == nodes || open_targets_seq(
            propagate_seq(pending, nodes).0,
        ) == 0,
    decreases nodes,
{
    if nodes.len() > 0 {
        let (front, after_front) = propagate_seq(pending, nodes.drop_last());
        let last = propagate(after_front, nodes.last()).0;
        if open_targets_seq(nodes.drop_last()) == 0 {
            lemma_no_target_no_change_seq(pending, nodes.drop_last());
            lemma_one_target_named_or_kept(after_front, nodes.last());
        } else {
            lemma_one_target_named_or_kept_seq(pending, nodes.drop_last());
            lemma_no_target_no_change(after_front, nodes.last());
        }
        lemma_targets_of_push(front, last);
    }
}

/// The pass opens no new target.
pub(crate) proof fn lemma_infer_no_new_target(node: NodeView)
    ensures
        open_targets(infer(node)) <= open_targets(node),
    decreases node,
{
    match node {
        NodeView::Ident(_) => {},
        NodeView::Fn(f) => {},
        NodeView::Class(c) => {},
        NodeView::KeyValue(p) => {
            lemma_infer_no_new_target_key(p.key);
            lemma_infer_no_new_target(*p.value);
            assert(open_targets(*infer_key_value(p).value) <= open_targets(infer(*p.value)));
        },
        NodeView::VarDeclarator(d) => {
            lemma_infer_no_new_target(*d.name);
            if let Some(e) = d.init {
                lemma_infer_no_new_target(*e);
                if let NodeView::Ident(name) = infer(*d.name) {
                    lemma_propagate_no_new_target(Some(spec_prepare(name, false)), infer(*e));
                }
            }
        },
        NodeView::Assign(a) => {
            lemma_infer_no_new_target(*a.left);
            lemma_infer_no_new_target(*a.right);
            if let NodeView::Ident(target) = infer(*a.left) {
                lemma_propagate_no_new_target(Some(target), infer(*a.right));
            }
        },
        NodeView::Tree { kind, children } => {
            lemma_infer_no_new_target_seq(children);
        },
    }
}

/// As [`lemma_infer_no_new_target`], for a property key.
proof fn lemma_infer_no_new_target_key(key: PropNameView)
    ensures
        open_targets_key(infer_key(key)) <= open_targets_key(key),
    decreases key,
{
    if let PropNameView::Computed(e) = key {
        lemma_infer_no_new_target(*e);
    }
}

/// As [`lemma_infer_no_new_target`], for siblings.
proof fn lemma_infer_no_new_target_seq(nodes: Seq<NodeView>)
    ensures
        open_targets_seq(infer_seq(nodes)) <= open_targets_seq(nodes),
    decreases nodes,
{
    if nodes.len() > 0 {
        lemma_infer_no_new_target_seq(nodes.drop_last());
        lemma_infer_no_new_target(nodes.last());
        assert(infer_seq(nodes).drop_last() =~= infer_seq(nodes.drop_last()));
    }
}

/// With at most one target within reach: a name that finds nothing to do in
/// `node` finds nothing to do after another name went through it.
pub(crate) proof fn lemma_propagate_twice(
    pending: Option<IdentView>,
    again: Option<IdentView>,
    node: NodeView,
)
    requires
        open_targets(node) <= 1,
        propagate(again, node).0 == node,
    ensures
        propagate(again, propagate(pending, node).0).0 == propagate(pending, node).0,
{
    lemma_one_target_named_or_kept(pending, node);
    if propagate(pending, node).0 != node {
        lemma_no_target_no_change(again, propagate(pending, node).0);
    }
}

/// A renamer without a pending name changes nothing.
pub proof fn lemma_nothing_pending(node: NodeView)
    ensures
        propagate(None, node) == (node, None::<IdentView>),
    decreases node,
{
    match node {
        NodeView::Ident(_) => {},
        NodeView::Fn(f) => {},
        NodeView::Class(c) => {},
        NodeView::KeyValue(p) => {
            lemma_nothing_pending_key(p.key);
            lemma_nothing_pending(*p.value);
        },
        NodeView::VarDeclarator(d) => {
            lemma_nothing_pending(*d.name);
            if let Some(e) = d.init {
                lemma_nothing_pending(*e);
            }
        },
        NodeView::Assign(a) => {
            lemma_nothing_pending(*a.left);
            lemma_nothing_pending(*a.right);
        },
        NodeView::Tree { kind, children } => {
            if !stops_name(kind) {
                lemma_nothing_pending_seq(children);
            }
        },
    }
}

/// As [`lemma_nothing_pending`], for a property key.
proof fn lemma_nothing_pending_key(key: PropNameView)
    ensures
        propagate_key(None, key) == (key, None::<IdentView>),
    decreases key,
{
    if let PropNameView::Computed(e) = key {
        lemma_nothing_pending(*e);
    }
}

/// As [`lemma_nothing_pending`], for siblings.
proof fn lemma_nothing_pending_seq(nodes: Seq<NodeView>)
    ensures
        propagate_seq(None, nodes) == (nodes, None::<IdentView>),
    decreases nodes,
{
    if nodes.len() > 0 {
        lemma_nothing_pending_seq(nodes.drop_last());
        lemma_nothing_pending(nodes.last());
    }
}

/// A pending name is used at most once: a renamer either still holds the
/// name it started with and has changed nothing, or holds no name.
pub proof fn lemma_name_used_once(pending: Option<IdentView>, node: NodeView)
    ensures
        propagate(pending, node) == (node, pending) || propagate(pending, node).1 is None,
    decreases node,
{
    match node {
        NodeView::Ident(_) => {},
        NodeView::Fn(f) => {},
        NodeView::Class(c) => {},
        NodeView::KeyValue(p) => {
            let after_key = propagate_key(pending, p.key).1;
            lemma_name_used_once_key(pending, p.key);
            lemma_name_used_once(after_key, *p.value);
            if after_key is None {
                lemma_nothing_pending(*p.value);
            }
        },
        NodeView::VarDeclarator(d) => {
            let after_name = propagate(pending, *d.name).1;
            lemma_name_used_once(pending, *d.name);
            if let Some(e) = d.init {
                lemma_name_used_once(after_name, *e);
                if after_name is None {
                    lemma_nothing_pending(*e);
                }
            }
        },
        NodeView::Assign(a) => {
            let after_left = propagate(pending, *a.left).1;
            lemma_name_used_once(pending, *a.left);
            lemma_name_used_once(after_left, *a.right);
            if after_left is None {
                lemma_nothing_pending(*a.right);
            }
        },
        NodeView::Tree { kind, children } => {
            if !stops_name(kind) {
                lemma_name_used_once_seq(pending, children);
            }
        },
    }
}

/// As [`lemma_name_used_once`], for a property key.
proof fn lemma_name_used_once_key(pending: Option<IdentView>, key: PropNameView)
    ensures
        propagate_key(pending, key) == (key, pending) || propagate_key(pending, key).1 is None,
    decreases key,
{
    if let PropNameView::Computed(e) = key {
        lemma_name_used_once(pending, *e);
    }
}

/// As [`lemma_name_used_once`], for siblings.
proof fn lemma_name_used_once_seq(pending: Option<IdentView>, nodes: Seq<NodeView>)
    ensures
        propagate_seq(pending, nodes) == (nodes, pending) || propagate_seq(pending, nodes).1
            is None,
    decreases nodes,
{
    if nodes.len() > 0 {
        let after_front = propagate_seq(pending, nodes.drop_last()).1;
        lemma_name_used_once_seq(pending, nodes.drop_last());
        lemma_name_used_once(after_front, nodes.last());
        if after_front is None {
            lemma_nothing_pending(nodes.last());
        }
    }
}

} // verus!
