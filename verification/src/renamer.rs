//! Carrying one candidate name to the expression that it is meant for.
//!
//! A [`Renamer`] holds at most one pending name. The first anonymous function
//! or class expression that it meets takes the name away, and keeps it unless
//! the expression already mentions an identifier with the same text.

use crate::ast::{
    AssignExpr, AssignExprView, ClassExpr, ClassExprView, FnExpr, FnExprView, Ident, IdentView,
    KeyValueProp, KeyValuePropView, Node, NodeKind, NodeView, PropName, PropNameView,
    VarDeclarator, VarDeclaratorView, node_view, nodes_view, opt_ident_view,
};
use crate::usage::{any_mentions, references_any};
use vstd::prelude::*;

verus! {

/// Whether a pending name stops at a node of this kind instead of entering it.
pub open spec fn stops_name(kind: NodeKind) -> bool {
    !(kind is Other)
}

/// What becomes of a function or class expression with the name `ident` and
/// the contents `body` when `pending` arrives: the name that the expression
/// has afterwards, and what is left of `pending`.
pub open spec fn attach(
    pending: Option<IdentView>,
    ident: Option<IdentView>,
    body: Seq<NodeView>,
) -> (Option<IdentView>, Option<IdentView>) {
    if ident is Some {
        (ident, pending)
    } else {
        match pending {
            None => (None, None),
            Some(name) => if any_mentions(body, name.sym) {
                (None, None)
            } else {
                (Some(name), None)
            },
        }
    }
}

/// The node that a renamer with `pending` makes of `node`, and what is left
/// of `pending` afterwards.
pub open spec fn propagate(pending: Option<IdentView>, node: NodeView) -> (
    NodeView,
    Option<IdentView>,
)
    decreases node,
{
    match node {
        NodeView::Ident(_) => (node, pending),
        NodeView::Fn(f) => {
            let (ident, rest) = attach(pending, f.ident, f.body);
            (NodeView::Fn(FnExprView { ident, body: f.body }), rest)
        },
        NodeView::Class(c) => {
            let (ident, rest) = attach(pending, c.ident, c.body);
            (NodeView::Class(ClassExprView { ident, body: c.body }), rest)
        },
        NodeView::KeyValue(p) => {
            let (key, after_key) = propagate_key(pending, p.key);
            let (value, rest) = propagate(after_key, *p.value);
            (NodeView::KeyValue(KeyValuePropView { key, value: Box::new(value) }), rest)
        },
        NodeView::VarDeclarator(d) => {
            let (name, after_name) = propagate(pending, *d.name);
            match d.init {
                Some(e) => {
                    let (init, rest) = propagate(after_name, *e);
                    (
                        NodeView::VarDeclarator(
                            VarDeclaratorView {
                                name: Box::new(name),
                                init: Some(Box::new(init)),
                            },
                        ),
                        rest,
                    )
                },
                None => (
                    NodeView::VarDeclarator(VarDeclaratorView { name: Box::new(name), init: None }),
                    after_name,
                ),
            }
        },
        NodeView::Assign(a) => {
            let (left, after_left) = propagate(pending, *a.left);
            let (right, rest) = propagate(after_left, *a.right);
            (
                NodeView::Assign(
                    AssignExprView { op: a.op, left: Box::new(left), right: Box::new(right) },
                ),
                rest,
            )
        },
        NodeView::Tree { kind, children } => {
            if stops_name(kind) {
                (node, pending)
            } else {
                let (children, rest) = propagate_seq(pending, children);
                (NodeView::Tree { kind, children }, rest)
            }
        },
    }
}

/// [`propagate`] for a property key: only a computed key has anything inside.
pub open spec fn propagate_key(pending: Option<IdentView>, key: PropNameView) -> (
    PropNameView,
    Option<IdentView>,
)
    decreases key,
{
    match key {
        PropNameView::Computed(e) => {
            let (e, rest) = propagate(pending, *e);
            (PropNameView::Computed(Box::new(e)), rest)
        },
        _ => (key, pending),
    }
}

/// [`propagate`] for siblings, from first to last: each node starts with what
/// the one before it left of the pending name.
pub open spec fn propagate_seq(pending: Option<IdentView>, nodes: Seq<NodeView>) -> (
    Seq<NodeView>,
    Option<IdentView>,
)
    decreases nodes,
{
    if nodes.len() == 0 {
        (nodes, pending)
    } else {
        let (front, after_front) = propagate_seq(pending, nodes.drop_last());
        let (last, rest) = propagate(after_front, nodes.last());
        (front.push(last), rest)
    }
}

/// Carries one candidate name through an initializer or a right-hand side.
pub struct Renamer {
    pub name: Option<Ident>,
}

impl View for Renamer {
    type V = Option<IdentView>;

    open spec fn view(&self) -> Option<IdentView> {
        opt_ident_view(self.name)
    }
}

impl Renamer {
    /// A function expression that has a name is left alone, and so is the
    /// pending name. An anonymous one takes the pending name away, and keeps
    /// it unless its body mentions an identifier with that text.
    pub fn fold_fn_expr(&mut self, node: FnExpr) -> (out: FnExpr)
        ensures
            (out@.ident, final(self)@) == attach(old(self)@, node@.ident, node@.body),
            out@.body == node@.body,
    {
        match node.ident {
            Some(_) => node,
            None => {
                let name = match self.name.take() {
                    None => {
                        return FnExpr { ident: None, body: node.body };
                    },
                    Some(name) => name,
                };
                if references_any(&name, &node.body) {
                    FnExpr { ident: None, body: node.body }
                } else {
                    FnExpr { ident: Some(name), body: node.body }
                }
            },
        }
    }

    /// As [`Renamer::fold_fn_expr`], for a class expression.
    pub fn fold_class_expr(&mut self, node: ClassExpr) -> (out: ClassExpr)
        ensures
            (out@.ident, final(self)@) == attach(old(self)@, node@.ident, node@.body),
            out@.body == node@.body,
    {
        match node.ident {
            Some(_) => node,
            None => {
                let name = match self.name.take() {
                    None => {
                        return ClassExpr { ident: None, body: node.body };
                    },
                    Some(name) => name,
                };
                if references_any(&name, &node.body) {
                    ClassExpr { ident: None, body: node.body }
                } else {
                    ClassExpr { ident: Some(name), body: node.body }
                }
            },
        }
    }

    /// Visits `node`: function and class expressions are handled as above,
    /// object and array literals, calls, `new`, binary and unary expressions
    /// are not entered, and every other node has its children visited in order.
    pub fn fold_node(&mut self, node: Node) -> (out: Node)
        ensures
            (out@, final(self)@) == propagate(old(self)@, node@),
        decreases node,
    {
        match node {
            Node::Ident(i) => Node::Ident(i),
            Node::Fn(f) => Node::Fn(self.fold_fn_expr(f)),
            Node::Class(c) => Node::Class(self.fold_class_expr(c)),
            Node::KeyValue(p) => {
                let key = self.fold_prop_name(p.key);
                let value = self.fold_node(*p.value);
                Node::KeyValue(KeyValueProp { key, value: Box::new(value) })
            },
            Node::VarDeclarator(d) => {
                let name = self.fold_node(*d.name);
                let init = match d.init {
                    Some(e) => Some(Box::new(self.fold_node(*e))),
                    None => None,
                };
                Node::VarDeclarator(VarDeclarator { name: Box::new(name), init })
            },
            Node::Assign(a) => {
                let left = self.fold_node(*a.left);
                let right = self.fold_node(*a.right);
                Node::Assign(AssignExpr { op: a.op, left: Box::new(left), right: Box::new(right) })
            },
            Node::Tree { kind, children } => {
                match kind {
                    NodeKind::Other => {
                        let children = self.fold_nodes(children);
                        Node::Tree { kind, children }
                    },
                    _ => Node::Tree { kind, children },
                }
            },
        }
    }

    /// Visits a property key: only a computed key has an expression inside.
    pub fn fold_prop_name(&mut self, key: PropName) -> (out: PropName)
        ensures
            (out@, final(self)@) == propagate_key(old(self)@, key@),
        decreases key,
    {
        match key {
            PropName::Computed(e) => PropName::Computed(Box::new(self.fold_node(*e))),
            other => other,
        }
    }

    /// Visits siblings from first to last.
    pub fn fold_nodes(&mut self, nodes: Vec<Node>) -> (out: Vec<Node>)
        ensures
            (nodes_view(out@), final(self)@) == propagate_seq(old(self)@, nodes_view(nodes@)),
        decreases nodes,
    {
        let ghost start = self@;
        let ghost all = nodes@;
        let mut out: Vec<Node> = Vec::new();
        for node in it: nodes
            invariant
                it.seq() == all,
                forall|j: int| 0 <= j < all.len() ==> decreases_to!(nodes => #[trigger] all[j]),
                (nodes_view(out@), self@) == propagate_seq(
                    start,
                    nodes_view(all).take(it.index() as int),
                ),
        {
            let ghost done = nodes_view(all).take(it.index() as int);
            let ghost next = nodes_view(all).take(it.index() + 1);
            let folded = self.fold_node(node);
            out.push(folded);
            proof {
                assert(next.drop_last() =~= done);
            }
        }
        assert(nodes_view(all).take(all.len() as int) =~= nodes_view(all));
        out
    }
}

} // verus!
