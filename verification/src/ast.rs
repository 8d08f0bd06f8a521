//! The syntax tree that the naming pass rewrites, and its mathematical model.
//!
//! The tree keeps what name inference looks at: identifiers, function and
//! class expressions, the three places that give a name (object properties,
//! variable declarators, assignments), the expression kinds that stop a name
//! from travelling further, and one catch-all kind for everything else.
//!
//! Every executable type has a view made of `Seq`, `Option` and plain values.
//! Contracts and laws are stated over the views.

use vstd::prelude::*;

verus! {

/// Where something was written: a range of byte offsets into the source
/// text, and the number of the hygiene context that tells apart identifiers
/// with the same text.
#[derive(Clone, Copy, Debug, PartialEq, Eq)]
pub struct Span {
    pub lo: u32,
    pub hi: u32,
    pub ctxt: u32,
}

/// An identifier: its text, where it was written, and whether the compiler
/// made it up. A private identifier never stands for a binding the user
/// wrote: whoever hands the tree on gives it a hygiene context of its own.
#[derive(Debug, PartialEq, Eq)]
pub struct Ident {
    pub sym: String,
    pub span: Span,
    pub private: bool,
}

/// Model of an [`Ident`].
pub struct IdentView {
    pub sym: Seq<char>,
    pub span: Span,
    pub private: bool,
}

impl View for Ident {
    type V = IdentView;

    open spec fn view(&self) -> IdentView {
        IdentView { sym: self.sym@, span: self.span, private: self.private }
    }
}

impl Clone for Ident {
    fn clone(&self) -> (copy: Ident)
        ensures
            copy@ == self@,
    {
        Ident { sym: self.sym.clone(), span: self.span, private: self.private }
    }
}

/// Model of an optional identifier.
pub open spec fn opt_ident_view(ident: Option<Ident>) -> Option<IdentView> {
    match ident {
        Some(i) => Some(i@),
        None => None,
    }
}

/// The operator of an assignment expression. Only `Assign` is the plain `=`.
#[derive(Clone, Copy, Debug, PartialEq, Eq)]
pub enum AssignOp {
    Assign,
    AddAssign,
    SubAssign,
    MulAssign,
    DivAssign,
    ModAssign,
    LShiftAssign,
    RShiftAssign,
    ZeroFillRShiftAssign,
    BitOrAssign,
    BitXorAssign,
    BitAndAssign,
    ExpAssign,
    AndAssign,
    OrAssign,
    NullishAssign,
}

/// The kind of a node that is told apart only by how a pending name treats it.
///
/// The first six kinds open a context of their own: a name that is on its way
/// to an initializer stops there. `Other` is every remaining kind of syntax
/// (parentheses, sequences, conditionals, statements, literals, ...).
#[derive(Clone, Copy, Debug, PartialEq, Eq)]
pub enum NodeKind {
    Object,
    Array,
    Call,
    New,
    Bin,
    Unary,
    Other,
}

/// The key of an object property.
#[derive(Debug, PartialEq, Eq)]
pub enum PropName {
    Ident(Ident),
    Str(String),
    Num(String),
    Computed(Box<Node>),
}

/// A function expression; `body` holds its parameters and statements.
#[derive(Debug, PartialEq, Eq)]
pub struct FnExpr {
    pub ident: Option<Ident>,
    pub body: Vec<Node>,
}

/// A class expression; `body` holds its heritage clause and members.
#[derive(Debug, PartialEq, Eq)]
pub struct ClassExpr {
    pub ident: Option<Ident>,
    pub body: Vec<Node>,
}

/// `key: value` inside an object literal.
#[derive(Debug, PartialEq, Eq)]
pub struct KeyValueProp {
    pub key: PropName,
    pub value: Box<Node>,
}

/// One declarator of a `var`, `let` or `const` statement.
#[derive(Debug, PartialEq, Eq)]
pub struct VarDeclarator {
    pub name: Box<Node>,
    pub init: Option<Box<Node>>,
}

/// An assignment expression.
#[derive(Debug, PartialEq, Eq)]
pub struct AssignExpr {
    pub op: AssignOp,
    pub left: Box<Node>,
    pub right: Box<Node>,
}

/// A node of the syntax tree.
#[derive(Debug, PartialEq, Eq)]
pub enum Node {
    /// An identifier used as an expression or as a binding pattern.
    Ident(Ident),
    Fn(FnExpr),
    Class(ClassExpr),
    KeyValue(KeyValueProp),
    VarDeclarator(VarDeclarator),
    Assign(AssignExpr),
    /// Any other syntax, with its children in source order.
    Tree { kind: NodeKind, children: Vec<Node> },
}

/// Model of a [`PropName`].
pub enum PropNameView {
    Ident(IdentView),
    Str(Seq<char>),
    Num(Seq<char>),
    Computed(Box<NodeView>),
}

/// Model of a [`FnExpr`].
pub struct FnExprView {
    pub ident: Option<IdentView>,
    pub body: Seq<NodeView>,
}

/// Model of a [`ClassExpr`].
pub struct ClassExprView {
    pub ident: Option<IdentView>,
    pub body: Seq<NodeView>,
}

/// Model of a [`KeyValueProp`].
pub struct KeyValuePropView {
    pub key: PropNameView,
    pub value: Box<NodeView>,
}

/// Model of a [`VarDeclarator`].
pub struct VarDeclaratorView {
    pub name: Box<NodeView>,
    pub init: Option<Box<NodeView>>,
}

/// Model of an [`AssignExpr`].
pub struct AssignExprView {
    pub op: AssignOp,
    pub left: Box<NodeView>,
    pub right: Box<NodeView>,
}

/// Model of a [`Node`].
pub enum NodeView {
    Ident(IdentView),
    Fn(FnExprView),
    Class(ClassExprView),
    KeyValue(KeyValuePropView),
    VarDeclarator(VarDeclaratorView),
    Assign(AssignExprView),
    Tree { kind: NodeKind, children: Seq<NodeView> },
}

/// The model of a node.
pub open spec fn node_view(node: Node) -> NodeView
    decreases node,
{
    match node {
        Node::Ident(i) => NodeView::Ident(i@),
        Node::Fn(f) => NodeView::Fn(
            FnExprView { ident: opt_ident_view(f.ident), body: nodes_view(f.body@) },
        ),
        Node::Class(c) => NodeView::Class(
            ClassExprView { ident: opt_ident_view(c.ident), body: nodes_view(c.body@) },
        ),
        Node::KeyValue(p) => NodeView::KeyValue(
            KeyValuePropView { key: prop_name_view(p.key), value: Box::new(node_view(*p.value)) },
        ),
        Node::VarDeclarator(d) => NodeView::VarDeclarator(
            VarDeclaratorView {
                name: Box::new(node_view(*d.name)),
                init: match d.init {
                    Some(e) => Some(Box::new(node_view(*e))),
                    None => None,
                },
            },
        ),
        Node::Assign(a) => NodeView::Assign(
            AssignExprView {
                op: a.op,
                left: Box::new(node_view(*a.left)),
                right: Box::new(node_view(*a.right)),
            },
        ),
        Node::Tree { kind, children } => NodeView::Tree { kind, children: nodes_view(children@) },
    }
}

/// The model of a property key.
pub open spec fn prop_name_view(key: PropName) -> PropNameView
    decreases key,
{
    match key {
        PropName::Ident(i) => PropNameView::Ident(i@),
        PropName::Str(s) => PropNameView::Str(s@),
        PropName::Num(s) => PropNameView::Num(s@),
        PropName::Computed(e) => PropNameView::Computed(Box::new(node_view(*e))),
    }
}

/// The models of a sequence of nodes, in the same order.
pub open spec fn nodes_view(nodes: Seq<Node>) -> Seq<NodeView>
    decreases nodes,
{
    Seq::new(
        nodes.len(),
        |i: int|
            if 0 <= i < nodes.len() {
                node_view(nodes[i])
            } else {
                arbitrary()
            },
    )
}

impl View for Node {
    type V = NodeView;

    open spec fn view(&self) -> NodeView {
        node_view(*self)
    }
}

impl View for PropName {
    type V = PropNameView;

    open spec fn view(&self) -> PropNameView {
        prop_name_view(*self)
    }
}

impl View for FnExpr {
    type V = FnExprView;

    open spec fn view(&self) -> FnExprView {
        FnExprView { ident: opt_ident_view(self.ident), body: nodes_view(self.body@) }
    }
}

impl View for ClassExpr {
    type V = ClassExprView;

    open spec fn view(&self) -> ClassExprView {
        ClassExprView { ident: opt_ident_view(self.ident), body: nodes_view(self.body@) }
    }
}

impl View for KeyValueProp {
    type V = KeyValuePropView;

    open spec fn view(&self) -> KeyValuePropView {
        KeyValuePropView { key: self.key@, value: Box::new((*self.value)@) }
    }
}

impl View for VarDeclarator {
    type V = VarDeclaratorView;

    open spec fn view(&self) -> VarDeclaratorView {
        VarDeclaratorView {
            name: Box::new((*self.name)@),
            init: match self.init {
                Some(e) => Some(Box::new((*e)@)),
                None => None,
            },
        }
    }
}

impl View for AssignExpr {
    type V = AssignExprView;

    open spec fn view(&self) -> AssignExprView {
        AssignExprView {
            op: self.op,
            left: Box::new((*self.left)@),
            right: Box::new((*self.right)@),
        }
    }
}

} // verus!
