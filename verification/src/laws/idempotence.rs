//! When a second run of the pass changes nothing.

use crate::ast::{
    AssignExprView, IdentView, KeyValuePropView, NodeView, PropNameView, VarDeclaratorView,
};
use crate::laws::names::{
    lemma_added_both_ways, lemma_infer_only_adds_names, lemma_propagate_only_adds_names,
};
use crate::laws::targets::{
    lemma_infer_no_new_target, lemma_no_target_no_change, lemma_one_target_named_or_kept,
    lemma_propagate_twice, open_targets, open_targets_key, open_targets_seq,
};
use crate::pass::{
    infer, infer_assignment, infer_declarator, infer_key, infer_key_value, infer_seq,
    name_assignment, name_declarator, name_property,
};
use crate::prepare::spec_prepare;
use crate::renamer::{propagate, propagate_key, propagate_seq, stops_name};
use vstd::prelude::*;

verus! {

/// Whether no naming site of `node` has more than one anonymous function or
/// class expression within reach: the initializer of every declarator that
/// binds an identifier, and the right side of every `=` whose target is an
/// identifier, holds at most one open target.
pub open spec fn single_target(node: NodeView) -> bool
    decreases node,
{
    match node {
        NodeView::Ident(_) => true,
        NodeView::Fn(f) => single_target_seq(f.body),
        NodeView::Class(c) => single_target_seq(c.body),
        NodeView::KeyValue(p) => single_target_key(p.key) && single_target(*p.value),
        NodeView::VarDeclarator(d) => single_target(*d.name) && match d.init {
            Some(e) => single_target(*e) && (*d.name is Ident ==> open_targets(*e) <= 1),
            None => true,
        },
        NodeView::Assign(a) => single_target(*a.left) && single_target(*a.right) && (a.op
            is Assign && *a.left is Ident ==> open_targets(*a.right) <= 1),
        NodeView::Tree { kind, children } => single_target_seq(children),
    }
}

/// [`single_target`] for a property key.
pub open spec fn single_target_key(key: PropNameView) -> bool
    decreases key,
{
    match key {
        PropNameView::Computed(e) => single_target(*e),
        _ => true,
    }
}

/// [`single_target`] for each of `nodes`.
pub open spec fn single_target_seq(nodes: Seq<NodeView>) -> bool
    decreases nodes,
{
    forall|i: int| 0 <= i < nodes.len() ==> single_target(#[trigger] nodes[i])
}

/// Whether the pass has nothing left to do anywhere in `node`: each property,
/// declarator and assignment in it is what its own naming step makes of it.
pub open spec fn settled(node: NodeView) -> bool
    decreases node,
{
    match node {
        NodeView::Ident(_) => true,
        NodeView::Fn(f) => settled_seq(f.body),
        NodeView::Class(c) => settled_seq(c.body),
        NodeView::KeyValue(p) => settled_key(p.key) && settled(*p.value) && name_property(p) == p,
        NodeView::VarDeclarator(d) => settled(*d.name) && match d.init {
            Some(e) => settled(*e),
            None => true,
        } && name_declarator(d) == d,
        NodeView::Assign(a) => settled(*a.left) && settled(*a.right) && name_assignment(a) == a,
        NodeView::Tree { kind, children } => settled_seq(children),
    }
}

/// [`settled`] for a property key.
pub open spec fn settled_key(key: PropNameView) -> bool
    decreases key,
{
    match key {
        PropNameView::Computed(e) => settled(*e),
        _ => true,
    }
}

/// [`settled`] for each of `nodes`.
pub open spec fn settled_seq(nodes: Seq<NodeView>) -> bool
    decreases nodes,
{
    forall|i: int| 0 <= i < nodes.len() ==> settled(#[trigger] nodes[i])
}

/// The pass leaves a settled tree as it is.
pub proof fn lemma_settled_is_unchanged(node: NodeView)
    requires
        settled(node),
    ensures
        infer(node) == node,
    decreases node,
{
    match node {
        NodeView::Ident(_) => {},
        NodeView::Fn(f) => lemma_settled_is_unchanged_seq(f.body),
        NodeView::Class(c) => lemma_settled_is_unchanged_seq(c.body),
        NodeView::KeyValue(p) => {
            lemma_settled_is_unchanged_key(p.key);
            lemma_settled_is_unchanged(*p.value);
        },
        NodeView::VarDeclarator(d) => {
            lemma_settled_is_unchanged(*d.name);
            if let Some(e) = d.init {
                lemma_settled_is_unchanged(*e);
            }
        },
        NodeView::Assign(a) => {
            lemma_settled_is_unchanged(*a.left);
            lemma_settled_is_unchanged(*a.right);
        },
        NodeView::Tree { kind, children } => lemma_settled_is_unchanged_seq(children),
    }
}

/// As [`lemma_settled_is_unchanged`], for a property key.
proof fn lemma_settled_is_unchanged_key(key: PropNameView)
    requires
        settled_key(key),
    ensures
        infer_key(key) == key,
    decreases key,
{
    if let PropNameView::Computed(e) = key {
        lemma_settled_is_unchanged(*e);
    }
}

/// As [`lemma_settled_is_unchanged`], for siblings.
proof fn lemma_settled_is_unchanged_seq(nodes: Seq<NodeView>)
    requires
        settled_seq(nodes),
    ensures
        infer_seq(nodes) == nodes,
    decreases nodes,
{
    assert forall|i: int| 0 <= i < nodes.len() implies infer_seq(nodes)[i] == nodes[i] by {
        lemma_settled_is_unchanged(nodes[i]);
    }
}

/// A renamer with at most one target within reach leaves a settled tree
/// settled.
proof fn lemma_propagate_keeps_settled(pending: Option<IdentView>, node: NodeView)
    requires
        settled(node),
        open_targets(node) <= 1,
    ensures
        settled(propagate(pending, node).0),
    decreases node,
{
    match node {
        NodeView::Ident(_) => {},
        NodeView::Fn(f) => {},
        NodeView::Class(c) => {},
        NodeView::KeyValue(p) => {
            let after_key = propagate_key(pending, p.key).1;
            lemma_propagate_keeps_settled_key(pending, p.key);
            lemma_propagate_keeps_settled(after_key, *p.value);
        },
        NodeView::VarDeclarator(d) => {
            let (name, after_name) = propagate(pending, *d.name);
            lemma_propagate_keeps_settled(pending, *d.name);
            match d.init {
                Some(e) => {
                    lemma_propagate_keeps_settled(after_name, *e);
                    if let NodeView::Ident(i) = name {
                        let candidate = Some(spec_prepare(i, false));
                        lemma_propagate_twice(after_name, candidate, *e);
                    }
                },
                None => {},
            }
        },
        NodeView::Assign(a) => {
            let (left, after_left) = propagate(pending, *a.left);
            lemma_propagate_keeps_settled(pending, *a.left);
            lemma_propagate_keeps_settled(after_left, *a.right);
            if let NodeView::Ident(target) = left {
                if a.op is Assign {
                    lemma_propagate_twice(after_left, Some(target), *a.right);
                }
            }
        },
        NodeView::Tree { kind, children } => {
            if !stops_name(kind) {
                lemma_propagate_keeps_settled_seq(pending, children);
            }
        },
    }
}

/// As [`lemma_propagate_keeps_settled`], for a property key.
proof fn lemma_propagate_keeps_settled_key(pending: Option<IdentView>, key: PropNameView)
    requires
        settled_key(key),
        open_targets_key(key) <= 1,
    ensures
        settled_key(propagate_key(pending, key).0),
    decreases key,
{
    if let PropNameView::Computed(e) = key {
        lemma_propagate_keeps_settled(pending, *e);
    }
}

/// As [`lemma_propagate_keeps_settled`], for siblings.
proof fn lemma_propagate_keeps_settled_seq(pending: Option<IdentView>, nodes: Seq<NodeView>)
    requires
        settled_seq(nodes),
        open_targets_seq(nodes) <= 1,
    ensures
        settled_seq(propagate_seq(pending, nodes).0),
    decreases nodes,
{
    if nodes.len() > 0 {
        let front = nodes.drop_last();
        assert forall|i: int| 0 <= i < front.len() implies settled(#[trigger] front[i]) by {
            assert(front[i] == nodes[i]);
        }
        let after_front = propagate_seq(pending, front).1;
        lemma_propagate_keeps_settled_seq(pending, front);
        lemma_propagate_keeps_settled(after_front, nodes.last());
    }
}

/// The output of the pass is settled wherever no site has two targets within
/// reach.
proof fn lemma_infer_settles(node: NodeView)
    requires
        single_target(node),
    ensures
        settled(infer(node)),
    decreases node,
{
    match node {
        NodeView::Ident(_) => {},
        NodeView::Fn(f) => lemma_infer_settles_seq(f.body),
        NodeView::Class(c) => lemma_infer_settles_seq(c.body),
        NodeView::KeyValue(p) => {
            lemma_infer_settles_key(p.key);
            lemma_infer_settles(*p.value);
            assert(settled(*infer_key_value(p).value));
        },
        NodeView::VarDeclarator(d) => {
            lemma_infer_settles(*d.name);
            let name = infer(*d.name);
            match d.init {
                Some(e) => {
                    lemma_infer_settles(*e);
                    lemma_infer_no_new_target(*e);
                    if let NodeView::Ident(i) = name {
                        let candidate = Some(spec_prepare(i, false));
                        lemma_propagate_keeps_settled(candidate, infer(*e));
                        lemma_one_target_named_or_kept(candidate, infer(*e));
                        let init = propagate(candidate, infer(*e)).0;
                        if init != infer(*e) {
                            lemma_no_target_no_change(candidate, init);
                        }
                    }
                },
                None => {},
            }
        },
        NodeView::Assign(a) => {
            lemma_infer_settles(*a.left);
            lemma_infer_settles(*a.right);
            lemma_infer_no_new_target(*a.right);
            let left = infer(*a.left);
            if let NodeView::Ident(target) = left {
                if a.op is Assign {
                    lemma_propagate_keeps_settled(Some(target), infer(*a.right));
                    lemma_one_target_named_or_kept(Some(target), infer(*a.right));
                    let right = propagate(Some(target), infer(*a.right)).0;
                    if right != infer(*a.right) {
                        lemma_no_target_no_change(Some(target), right);
                    }
                }
            }
        },
        NodeView::Tree { kind, children } => lemma_infer_settles_seq(children),
    }
}

/// As [`lemma_infer_settles`], for a property key.
proof fn lemma_infer_settles_key(key: PropNameView)
    requires
        single_target_key(key),
    ensures
        settled_key(infer_key(key)),
    decreases key,
{
    if let PropNameView::Computed(e) = key {
        lemma_infer_settles(*e);
    }
}

/// As [`lemma_infer_settles`], for siblings.
proof fn lemma_infer_settles_seq(nodes: Seq<NodeView>)
    requires
        single_target_seq(nodes),
    ensures
        settled_seq(infer_seq(nodes)),
    decreases nodes,
{
    assert forall|i: int| 0 <= i < nodes.len() implies settled(#[trigger] infer_seq(nodes)[i]) by {
        lemma_infer_settles(nodes[i]);
    }
}

/// Running the pass on its own output changes nothing, on every tree in
/// which a name on its way to an initializer or to the right side of an
/// assignment can reach at most one anonymous function or class expression.
pub proof fn lemma_pass_is_idempotent(node: NodeView)
    requires
        single_target(node),
    ensures
        infer(infer(node)) == infer(node),
{
    lemma_infer_settles(node);
    lemma_settled_is_unchanged(infer(node));
}

/// A tree that the pass leaves as it is, is settled.
pub proof fn lemma_unchanged_is_settled(node: NodeView)
    requires
        infer(node) == node,
    ensures
        settled(node),
    decreases node,
{
    match node {
        NodeView::Ident(_) => {},
        NodeView::Fn(f) => lemma_unchanged_is_settled_seq(f.body),
        NodeView::Class(c) => lemma_unchanged_is_settled_seq(c.body),
        NodeView::KeyValue(p) => {
            lemma_unchanged_is_settled_key(p.key);
            lemma_unchanged_is_settled(*p.value);
        },
        NodeView::VarDeclarator(d) => {
            lemma_unchanged_is_settled(*d.name);
            if let Some(e) = d.init {
                if let NodeView::Ident(name) = *d.name {
                    let candidate = Some(spec_prepare(name, false));
                    lemma_infer_only_adds_names(*e);
                    lemma_propagate_only_adds_names(candidate, infer(*e));
                    lemma_added_both_ways(*e, infer(*e));
                }
                lemma_unchanged_is_settled(*e);
            }
        },
        NodeView::Assign(a) => {
            lemma_unchanged_is_settled(*a.left);
            if let NodeView::Ident(target) = *a.left {
                if a.op is Assign {
                    lemma_infer_only_adds_names(*a.right);
                    lemma_propagate_only_adds_names(Some(target), infer(*a.right));
                    lemma_added_both_ways(*a.right, infer(*a.right));
                }
            }
            lemma_unchanged_is_settled(*a.right);
        },
        NodeView::Tree { kind, children } => lemma_unchanged_is_settled_seq(children),
    }
}

/// As [`lemma_unchanged_is_settled`], for a property key.
proof fn lemma_unchanged_is_settled_key(key: PropNameView)
    requires
        infer_key(key) == key,
    ensures
        settled_key(key),
    decreases key,
{
    if let PropNameView::Computed(e) = key {
        lemma_unchanged_is_settled(*e);
    }
}

/// As [`lemma_unchanged_is_settled`], for siblings.
proof fn lemma_unchanged_is_settled_seq(nodes: Seq<NodeView>)
    requires
        infer_seq(nodes) == nodes,
    ensures
        settled_seq(nodes),
    decreases nodes,
{
    assert forall|i: int| 0 <= i < nodes.len() implies settled(#[trigger] nodes[i]) by {
        lemma_unchanged_is_settled(nodes[i]);
    }
}

/// Running the pass a second time changes nothing exactly when its first
/// output is settled.
pub proof fn lemma_idempotent_iff_settled(node: NodeView)
    ensures
        infer(infer(node)) == infer(node) <==> settled(infer(node)),
{
    if settled(infer(node)) {
        lemma_settled_is_unchanged(infer(node));
    }
    if infer(infer(node)) == infer(node) {
        lemma_unchanged_is_settled(infer(node));
    }
}

} // verus!
