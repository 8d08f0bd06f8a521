//! Where a name is not given: to an expression that mentions it, and behind
//! the expression kinds that a name does not pass.

use crate::ast::{
    ClassExprView, FnExprView, IdentView, NodeKind, NodeView, PropNameView, VarDeclaratorView,
};
use crate::laws::names::{
    lemma_infer_seq_only_adds_names, only_names_added, only_names_added_key, only_names_added_seq,
};
use crate::pass::{infer_declarator, infer_seq};
use crate::prepare::needs_fresh_name;
use crate::renamer::stops_name;
use crate::usage::{any_mentions, is_named, key_mentions, mentions};
use vstd::prelude::*;

verus! {

/// Giving names to anonymous expressions removes no identifier: what the
/// tree mentioned before, it mentions afterwards.
pub proof fn lemma_mentions_kept(before: NodeView, after: NodeView, sym: Seq<char>)
    requires
        only_names_added(before, after),
        mentions(before, sym),
    ensures
        mentions(after, sym),
    decreases before,
{
    match (before, after) {
        (NodeView::Fn(a), NodeView::Fn(b)) => {
            if !is_named(a.ident, sym) {
                lemma_mentions_kept_seq(a.body, b.body, sym);
            }
        },
        (NodeView::Class(a), NodeView::Class(b)) => {
            if !is_named(a.ident, sym) {
                lemma_mentions_kept_seq(a.body, b.body, sym);
            }
        },
        (NodeView::KeyValue(a), NodeView::KeyValue(b)) => {
            if key_mentions(a.key, sym) {
                lemma_mentions_kept_key(a.key, b.key, sym);
            } else {
                lemma_mentions_kept(*a.value, *b.value, sym);
            }
        },
        (NodeView::VarDeclarator(a), NodeView::VarDeclarator(b)) => {
            if mentions(*a.name, sym) {
                lemma_mentions_kept(*a.name, *b.name, sym);
            } else if let (Some(x), Some(y)) = (a.init, b.init) {
                lemma_mentions_kept(*x, *y, sym);
            }
        },
        (NodeView::Assign(a), NodeView::Assign(b)) => {
            if mentions(*a.left, sym) {
                lemma_mentions_kept(*a.left, *b.left, sym);
            } else {
                lemma_mentions_kept(*a.right, *b.right, sym);
            }
        },
        (NodeView::Tree { children: a, .. }, NodeView::Tree { children: b, .. }) => {
            lemma_mentions_kept_seq(a, b, sym);
        },
        _ => {},
    }
}

/// As [`lemma_mentions_kept`], for a property key.
proof fn lemma_mentions_kept_key(before: PropNameView, after: PropNameView, sym: Seq<char>)
    requires
        only_names_added_key(before, after),
        key_mentions(before, sym),
    ensures
        key_mentions(after, sym),
    decreases before,
{
    if let (PropNameView::Computed(x), PropNameView::Computed(y)) = (before, after) {
        lemma_mentions_kept(*x, *y, sym);
    }
}

/// As [`lemma_mentions_kept`], for siblings.
proof fn lemma_mentions_kept_seq(before: Seq<NodeView>, after: Seq<NodeView>, sym: Seq<char>)
    requires
        only_names_added_seq(before, after),
        any_mentions(before, sym),
    ensures
        any_mentions(after, sym),
    decreases before,
{
    let i = choose|i: int| 0 <= i < before.len() && mentions(#[trigger] before[i], sym);
    lemma_mentions_kept(before[i], after[i], sym);
}

/// A function expression that mentions the variable it initializes stays
/// anonymous: `let n = function () { ... n ... }` is left as it is, for every
/// `n` that is attached as written (not a reserved word, `await` or `eval`).
pub proof fn lemma_capture_keeps_function_anonymous(name: IdentView, body: Seq<NodeView>)
    requires
        any_mentions(body, name.sym),
        !needs_fresh_name(name.sym),
    ensures
        infer_declarator(
            VarDeclaratorView {
                name: Box::new(NodeView::Ident(name)),
                init: Some(Box::new(NodeView::Fn(FnExprView { ident: None, body }))),
            },
        ) == (VarDeclaratorView {
            name: Box::new(NodeView::Ident(name)),
            init: Some(
                Box::new(NodeView::Fn(FnExprView { ident: None, body: infer_seq(body) })),
            ),
        }),
{
    lemma_infer_seq_only_adds_names(body);
    lemma_mentions_kept_seq(body, infer_seq(body), name.sym);
}

/// A class expression that mentions the variable it initializes stays
/// anonymous, for every variable name that is attached as written.
pub proof fn lemma_capture_keeps_class_anonymous(name: IdentView, body: Seq<NodeView>)
    requires
        any_mentions(body, name.sym),
        !needs_fresh_name(name.sym),
    ensures
        infer_declarator(
            VarDeclaratorView {
                name: Box::new(NodeView::Ident(name)),
                init: Some(Box::new(NodeView::Class(ClassExprView { ident: None, body }))),
            },
        ) == (VarDeclaratorView {
            name: Box::new(NodeView::Ident(name)),
            init: Some(
                Box::new(NodeView::Class(ClassExprView { ident: None, body: infer_seq(body) })),
            ),
        }),
{
    lemma_infer_seq_only_adds_names(body);
    lemma_mentions_kept_seq(body, infer_seq(body), name.sym);
}

/// A name does not pass an object or array literal, a call, a `new`, a binary
/// or a unary expression: a declarator with such an initializer names nothing
/// but what the initializer's own places name.
pub proof fn lemma_boundary_keeps_name_out(
    name: IdentView,
    kind: NodeKind,
    children: Seq<NodeView>,
)
    requires
        stops_name(kind),
    ensures
        infer_declarator(
            VarDeclaratorView {
                name: Box::new(NodeView::Ident(name)),
                init: Some(Box::new(NodeView::Tree { kind, children })),
            },
        ) == (VarDeclaratorView {
            name: Box::new(NodeView::Ident(name)),
            init: Some(Box::new(NodeView::Tree { kind, children: infer_seq(children) })),
        }),
{
}

} // verus!
