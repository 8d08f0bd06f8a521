//! The pass: giving anonymous function and class expressions the name of the
//! property, variable or assignment target that they are the value of.
//!
//! The tree is rewritten from the leaves up. A node's children are done
//! before the node itself is looked at, so an expression that an inner place
//! has named is never named again by an outer one.

use crate::ast::{
    AssignExpr, AssignExprView, AssignOp, ClassExpr, ClassExprView, FnExpr, FnExprView,
    KeyValueProp, KeyValuePropView, Node, NodeView, PropName, PropNameView, VarDeclarator,
    VarDeclaratorView, node_view, nodes_view,
};
use crate::laws::names::{lemma_infer_only_adds_names, only_names_added};
use crate::prepare::{prepare, spec_prepare};
use crate::renamer::{Renamer, propagate};
use vstd::prelude::*;

verus! {

/// A property whose children are done: an anonymous function expression that
/// is the value of an identifier key takes the prepared key as its name.
pub open spec fn name_property(p: KeyValuePropView) -> KeyValuePropView {
    match (*p.value, p.key) {
        (NodeView::Fn(f), PropNameView::Ident(key)) => if f.ident is None {
            KeyValuePropView {
                key: p.key,
                value: Box::new(
                    NodeView::Fn(
                        FnExprView { ident: Some(spec_prepare(key, false)), body: f.body },
                    ),
                ),
            }
        } else {
            p
        },
        _ => p,
    }
}

/// A declarator whose children are done: where it binds a single identifier,
/// the prepared identifier is carried into the initializer.
pub open spec fn name_declarator(d: VarDeclaratorView) -> VarDeclaratorView {
    match (*d.name, d.init) {
        (NodeView::Ident(name), Some(init)) => VarDeclaratorView {
            name: d.name,
            init: Some(Box::new(propagate(Some(spec_prepare(name, false)), *init).0)),
        },
        _ => d,
    }
}

/// An assignment whose children are done: where the operator is `=` and the
/// target a single identifier, that identifier is carried into the right side.
pub open spec fn name_assignment(a: AssignExprView) -> AssignExprView {
    match (a.op, *a.left) {
        (AssignOp::Assign, NodeView::Ident(target)) => AssignExprView {
            op: a.op,
            left: a.left,
            right: Box::new(propagate(Some(target), *a.right).0),
        },
        _ => a,
    }
}

/// The tree that the pass makes of `node`.
pub open spec fn infer(node: NodeView) -> NodeView
    decreases node,
{
    match node {
        NodeView::Ident(_) => node,
        NodeView::Fn(f) => NodeView::Fn(FnExprView { ident: f.ident, body: infer_seq(f.body) }),
        NodeView::Class(c) => NodeView::Class(
            ClassExprView { ident: c.ident, body: infer_seq(c.body) },
        ),
        NodeView::KeyValue(p) => NodeView::KeyValue(infer_key_value(p)),
        NodeView::VarDeclarator(d) => NodeView::VarDeclarator(infer_declarator(d)),
        NodeView::Assign(a) => NodeView::Assign(infer_assignment(a)),
        NodeView::Tree { kind, children } => NodeView::Tree { kind, children: infer_seq(children) },
    }
}

/// The property that the pass makes of `p`.
pub open spec fn infer_key_value(p: KeyValuePropView) -> KeyValuePropView
    decreases p,
{
    name_property(KeyValuePropView { key: infer_key(p.key), value: Box::new(infer(*p.value)) })
}

/// The declarator that the pass makes of `d`.
pub open spec fn infer_declarator(d: VarDeclaratorView) -> VarDeclaratorView
    decreases d,
{
    name_declarator(
        VarDeclaratorView {
            name: Box::new(infer(*d.name)),
            init: match d.init {
                Some(e) => Some(Box::new(infer(*e))),
                None => None,
            },
        },
    )
}

/// The assignment that the pass makes of `a`.
pub open spec fn infer_assignment(a: AssignExprView) -> AssignExprView
    decreases a,
{
    name_assignment(
        AssignExprView {
            op: a.op,
            left: Box::new(infer(*a.left)),
            right: Box::new(infer(*a.right)),
        },
    )
}

/// The key that the pass makes of `key`.
pub open spec fn infer_key(key: PropNameView) -> PropNameView
    decreases key,
{
    match key {
        PropNameView::Computed(e) => PropNameView::Computed(Box::new(infer(*e))),
        _ => key,
    }
}

/// The pass applied to each of `nodes`.
pub open spec fn infer_seq(nodes: Seq<NodeView>) -> Seq<NodeView>
    decreases nodes,
{
    Seq::new(
        nodes.len(),
        |i: int|
            if 0 <= i < nodes.len() {
                infer(nodes[i])
            } else {
                arbitrary()
            },
    )
}

/// The pass that names anonymous function and class expressions.
pub struct FnName;

/// Makes the pass.
pub fn function_name() -> FnName {
    FnName
}

impl FnName {
    /// Rewrites a whole tree. The result differs from `node` only in names
    /// given to function and class expressions that had none.
    pub fn fold_node(&mut self, node: Node) -> (out: Node)
        ensures
            out@ == infer(node@),
            only_names_added(node@, out@),
        decreases node,
    {
        proof {
            lemma_infer_only_adds_names(node@);
        }
        match node {
            Node::Ident(i) => Node::Ident(i),
            Node::Fn(f) => Node::Fn(FnExpr { ident: f.ident, body: self.fold_nodes(f.body) }),
            Node::Class(c) => Node::Class(
                ClassExpr { ident: c.ident, body: self.fold_nodes(c.body) },
            ),
            Node::KeyValue(p) => Node::KeyValue(self.fold_key_value_prop(p)),
            Node::VarDeclarator(d) => Node::VarDeclarator(self.fold_var_declarator(d)),
            Node::Assign(a) => Node::Assign(self.fold_assign_expr(a)),
            Node::Tree { kind, children } => Node::Tree {
                kind,
                children: self.fold_nodes(children),
            },
        }
    }

    /// `key: value`: an anonymous function expression that is the value of an
    /// identifier key is named after the key. Nothing is scanned here.
    pub fn fold_key_value_prop(&mut self, p: KeyValueProp) -> (out: KeyValueProp)
        ensures
            out@ == infer_key_value(p@),
        decreases p,
    {
        let key = self.fold_prop_name(p.key);
        let value = self.fold_node(*p.value);
        let value = match value {
            Node::Fn(FnExpr { ident: None, body }) => {
                if let PropName::Ident(i) = &key {
                    Node::Fn(FnExpr { ident: Some(prepare(i.clone(), false)), body })
                } else {
                    Node::Fn(FnExpr { ident: None, body })
                }
            },
            other => other,
        };
        KeyValueProp { key, value: Box::new(value) }
    }

    /// A declarator that binds a single identifier carries the prepared
    /// identifier into its initializer. Other patterns name nothing.
    pub fn fold_var_declarator(&mut self, decl: VarDeclarator) -> (out: VarDeclarator)
        ensures
            out@ == infer_declarator(decl@),
        decreases decl,
    {
        let name = self.fold_node(*decl.name);
        let init = match decl.init {
            Some(e) => Some(Box::new(self.fold_node(*e))),
            None => None,
        };
        match &name {
            Node::Ident(ident) => {
                let mut folder = Renamer { name: Some(prepare(ident.clone(), false)) };
                let init = match init {
                    Some(e) => Some(Box::new(folder.fold_node(*e))),
                    None => None,
                };
                VarDeclarator { name: Box::new(name), init }
            },
            _ => VarDeclarator { name: Box::new(name), init },
        }
    }

    /// `target = value` with a single identifier as target carries that
    /// identifier, as it stands, into the right side. A compound operator or
    /// any other target names nothing.
    pub fn fold_assign_expr(&mut self, expr: AssignExpr) -> (out: AssignExpr)
        ensures
            out@ == infer_assignment(expr@),
        decreases expr,
    {
        let left = self.fold_node(*expr.left);
        let right = self.fold_node(*expr.right);
        match expr.op {
            AssignOp::Assign => {},
            _ => {
                return AssignExpr { op: expr.op, left: Box::new(left), right: Box::new(right) };
            },
        }
        match &left {
            Node::Ident(ident) => {
                let mut folder = Renamer { name: Some(ident.clone()) };
                let right = folder.fold_node(right);
                AssignExpr { op: expr.op, left: Box::new(left), right: Box::new(right) }
            },
            _ => AssignExpr { op: expr.op, left: Box::new(left), right: Box::new(right) },
        }
    }

    /// Rewrites the expression of a computed key; other keys have none.
    pub fn fold_prop_name(&mut self, key: PropName) -> (out: PropName)
        ensures
            out@ == infer_key(key@),
        decreases key,
    {
        match key {
            PropName::Computed(e) => PropName::Computed(Box::new(self.fold_node(*e))),
            other => other,
        }
    }

    /// Rewrites each of `nodes`.
    pub fn fold_nodes(&mut self, nodes: Vec<Node>) -> (out: Vec<Node>)
        ensures
            nodes_view(out@) == infer_seq(nodes_view(nodes@)),
        decreases nodes,
    {
        let ghost all = nodes@;
        let mut out: Vec<Node> = Vec::new();
        for node in it: nodes
            invariant
                it.seq() == all,
                forall|j: int| 0 <= j < all.len() ==> decreases_to!(nodes => #[trigger] all[j]),
                out@.len() == it.index(),
                forall|j: int| 0 <= j < out@.len() ==> (#[trigger] out@[j])@ == infer(all[j]@),
        {
            let folded = self.fold_node(node);
            out.push(folded);
        }
        out
    }
}

} // verus!
