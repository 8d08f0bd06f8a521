use name_inference::ast::{
    AssignExpr, AssignOp, ClassExpr, FnExpr, Ident, KeyValueProp, Node, NodeKind, PropName, Span,
    VarDeclarator,
};
use name_inference::pass::function_name;

fn span(lo: u32, hi: u32) -> Span {
    Span { lo, hi, ctxt: 0 }
}

fn ident(sym: &str, lo: u32) -> Ident {
    Ident { sym: sym.to_string(), span: span(lo, lo + sym.len() as u32), private: false }
}

fn private(sym: &str, lo: u32, len: u32) -> Ident {
    Ident { sym: sym.to_string(), span: span(lo, lo + len), private: true }
}

fn reference(sym: &str, lo: u32) -> Node {
    Node::Ident(ident(sym, lo))
}

fn other(children: Vec<Node>) -> Node {
    Node::Tree { kind: NodeKind::Other, children }
}

fn function(name: Option<Ident>, body: Vec<Node>) -> Node {
    Node::Fn(FnExpr { ident: name, body })
}

fn class(name: Option<Ident>, body: Vec<Node>) -> Node {
    Node::Class(ClassExpr { ident: name, body })
}

fn declare(name: Node, init: Option<Node>) -> Node {
    Node::VarDeclarator(VarDeclarator { name: Box::new(name), init: init.map(Box::new) })
}

fn assign(op: AssignOp, left: Node, right: Node) -> Node {
    Node::Assign(AssignExpr { op, left: Box::new(left), right: Box::new(right) })
}

fn run(node: Node) -> Node {
    function_name().fold_node(node)
}

// { number: function (x) { return x; } }
#[test]
fn object_property_names_the_function() {
    let body = || vec![reference("x", 20), other(vec![reference("x", 32)])];
    let object = |name: Option<Ident>| Node::Tree {
        kind: NodeKind::Object,
        children: vec![Node::KeyValue(KeyValueProp {
            key: PropName::Ident(ident("number", 2)),
            value: Box::new(function(name, body())),
        })],
    };
    assert_eq!(run(object(None)), object(Some(ident("number", 2))));
}

// var Foo = class {};
#[test]
fn variable_declarator_names_the_class() {
    let statement = |name: Option<Ident>| {
        other(vec![declare(reference("Foo", 4), Some(class(name, vec![])))])
    };
    assert_eq!(run(statement(None)), statement(Some(ident("Foo", 4))));
}

// x = function () {};
#[test]
fn simple_assignment_names_the_function() {
    let statement = |name: Option<Ident>| {
        other(vec![assign(AssignOp::Assign, reference("x", 0), function(name, vec![]))])
    };
    assert_eq!(run(statement(None)), statement(Some(ident("x", 0))));
}

// x += function () {};
#[test]
fn compound_assignment_names_nothing() {
    let statement =
        || other(vec![assign(AssignOp::AddAssign, reference("x", 0), function(None, vec![]))]);
    assert_eq!(run(statement()), statement());
}

// var x = [function () {}];
#[test]
fn array_literal_keeps_the_name_out() {
    let statement = || {
        declare(
            reference("x", 4),
            Some(Node::Tree { kind: NodeKind::Array, children: vec![function(None, vec![])] }),
        )
    };
    assert_eq!(run(statement()), statement());
}

// var await = function () {};
#[test]
fn reserved_target_gets_a_made_up_name() {
    let statement = |name: Option<Ident>| declare(reference("await", 4), Some(function(name, vec![])));
    assert_eq!(run(statement(None)), statement(Some(private("_await", 4, 5))));
}

// let N = function () { N; };
#[test]
fn function_that_mentions_the_name_stays_anonymous() {
    let statement =
        || declare(reference("N", 4), Some(function(None, vec![other(vec![reference("N", 22)])])));
    assert_eq!(run(statement()), statement());
}

// var x = function y() {};
#[test]
fn explicit_name_is_kept() {
    let statement = || declare(reference("x", 4), Some(function(Some(ident("y", 17)), vec![])));
    assert_eq!(run(statement()), statement());
}
