use name_inference::ast::{
    AssignExpr, AssignOp, ClassExpr, FnExpr, Ident, KeyValueProp, Node, NodeKind, PropName, Span,
    VarDeclarator,
};
use name_inference::renamer::Renamer;

fn ident(sym: &str) -> Ident {
    Ident { sym: sym.to_string(), span: Span { lo: 1, hi: 1 + sym.len() as u32, ctxt: 0 }, private: false }
}

fn reference(sym: &str) -> Node {
    Node::Ident(ident(sym))
}

fn function(name: Option<&str>, body: Vec<Node>) -> Node {
    Node::Fn(FnExpr { ident: name.map(ident), body })
}

fn class(name: Option<&str>, body: Vec<Node>) -> Node {
    Node::Class(ClassExpr { ident: name.map(ident), body })
}

fn other(children: Vec<Node>) -> Node {
    Node::Tree { kind: NodeKind::Other, children }
}

fn with(name: &str) -> Renamer {
    Renamer { name: Some(ident(name)) }
}

#[test]
fn anonymous_function_takes_the_pending_name() {
    let mut r = with("f");
    let out = r.fold_fn_expr(FnExpr { ident: None, body: vec![reference("a")] });
    assert_eq!(out, FnExpr { ident: Some(ident("f")), body: vec![reference("a")] });
    assert_eq!(r.name, None);
}

#[test]
fn anonymous_class_takes_the_pending_name() {
    let mut r = with("C");
    let out = r.fold_class_expr(ClassExpr { ident: None, body: vec![] });
    assert_eq!(out, ClassExpr { ident: Some(ident("C")), body: vec![] });
    assert_eq!(r.name, None);
}

#[test]
fn named_function_keeps_its_name_and_leaves_the_pending_one() {
    let mut r = with("f");
    let out = r.fold_fn_expr(FnExpr { ident: Some(ident("g")), body: vec![] });
    assert_eq!(out, FnExpr { ident: Some(ident("g")), body: vec![] });
    assert_eq!(r.name, Some(ident("f")));
}

#[test]
fn named_class_keeps_its_name_and_leaves_the_pending_one() {
    let mut r = with("f");
    let out = r.fold_class_expr(ClassExpr { ident: Some(ident("g")), body: vec![] });
    assert_eq!(out, ClassExpr { ident: Some(ident("g")), body: vec![] });
    assert_eq!(r.name, Some(ident("f")));
}

#[test]
fn function_that_mentions_the_name_uses_it_up_without_taking_it() {
    let mut r = with("f");
    let body = || vec![other(vec![reference("f")])];
    let out = r.fold_fn_expr(FnExpr { ident: None, body: body() });
    assert_eq!(out, FnExpr { ident: None, body: body() });
    assert_eq!(r.name, None);
}

#[test]
fn class_that_mentions_the_name_uses_it_up_without_taking_it() {
    let mut r = with("C");
    let out = r.fold_class_expr(ClassExpr { ident: None, body: vec![reference("C")] });
    assert_eq!(out, ClassExpr { ident: None, body: vec![reference("C")] });
    assert_eq!(r.name, None);
}

#[test]
fn nothing_pending_names_nothing() {
    let mut r = Renamer { name: None };
    let out = r.fold_node(other(vec![function(None, vec![]), class(None, vec![])]));
    assert_eq!(out, other(vec![function(None, vec![]), class(None, vec![])]));
    assert_eq!(r.name, None);
}

#[test]
fn name_reaches_a_function_through_wrappers() {
    let mut r = with("f");
    let out = r.fold_node(other(vec![other(vec![function(None, vec![])])]));
    assert_eq!(out, other(vec![other(vec![function(Some("f"), vec![])])]));
    assert_eq!(r.name, None);
}

#[test]
fn name_stops_at_each_boundary_kind() {
    for kind in [
        NodeKind::Object,
        NodeKind::Array,
        NodeKind::Call,
        NodeKind::New,
        NodeKind::Bin,
        NodeKind::Unary,
    ] {
        let mut r = with("f");
        let tree = || Node::Tree { kind, children: vec![function(None, vec![]), class(None, vec![])] };
        assert_eq!(r.fold_node(tree()), tree());
        assert_eq!(r.name, Some(ident("f")));
    }
}

#[test]
fn only_the_first_anonymous_sibling_is_named() {
    let mut r = with("f");
    let out = r.fold_node(other(vec![
        function(Some("kept"), vec![]),
        function(None, vec![]),
        class(None, vec![]),
    ]));
    assert_eq!(
        out,
        other(vec![function(Some("kept"), vec![]), function(Some("f"), vec![]), class(None, vec![])])
    );
    assert_eq!(r.name, None);
}

#[test]
fn sibling_after_a_skipped_function_gets_nothing() {
    let mut r = with("f");
    let tree = || other(vec![function(None, vec![reference("f")]), function(None, vec![])]);
    assert_eq!(r.fold_node(tree()), tree());
    assert_eq!(r.name, None);
}

#[test]
fn function_body_is_not_entered() {
    let mut r = with("f");
    let out = r.fold_node(function(Some("outer"), vec![function(None, vec![])]));
    assert_eq!(out, function(Some("outer"), vec![function(None, vec![])]));
    assert_eq!(r.name, Some(ident("f")));
}

#[test]
fn identifier_is_passed_by() {
    let mut r = with("f");
    assert_eq!(r.fold_node(reference("f")), reference("f"));
    assert_eq!(r.name, Some(ident("f")));
}

#[test]
fn property_is_visited_key_first() {
    let mut r = with("f");
    let out = r.fold_node(Node::KeyValue(KeyValueProp {
        key: PropName::Computed(Box::new(function(None, vec![]))),
        value: Box::new(function(None, vec![])),
    }));
    assert_eq!(
        out,
        Node::KeyValue(KeyValueProp {
            key: PropName::Computed(Box::new(function(Some("f"), vec![]))),
            value: Box::new(function(None, vec![])),
        })
    );
    let mut r = with("f");
    let out = r.fold_prop_name(PropName::Str("f".to_string()));
    assert_eq!(out, PropName::Str("f".to_string()));
    assert_eq!(r.name, Some(ident("f")));
}

#[test]
fn declarator_is_visited_name_first() {
    let mut r = with("f");
    let out = r.fold_node(Node::VarDeclarator(VarDeclarator {
        name: Box::new(reference("v")),
        init: Some(Box::new(class(None, vec![]))),
    }));
    assert_eq!(
        out,
        Node::VarDeclarator(VarDeclarator {
            name: Box::new(reference("v")),
            init: Some(Box::new(class(Some("f"), vec![]))),
        })
    );
    let mut r = with("f");
    let bare = || Node::VarDeclarator(VarDeclarator { name: Box::new(reference("v")), init: None });
    assert_eq!(r.fold_node(bare()), bare());
    assert_eq!(r.name, Some(ident("f")));
}

#[test]
fn assignment_is_visited_left_first() {
    let mut r = with("f");
    let out = r.fold_node(Node::Assign(AssignExpr {
        op: AssignOp::AddAssign,
        left: Box::new(other(vec![function(None, vec![])])),
        right: Box::new(function(None, vec![])),
    }));
    assert_eq!(
        out,
        Node::Assign(AssignExpr {
            op: AssignOp::AddAssign,
            left: Box::new(other(vec![function(Some("f"), vec![])])),
            right: Box::new(function(None, vec![])),
        })
    );
}

#[test]
fn siblings_are_visited_in_order() {
    let mut r = with("f");
    let out = r.fold_nodes(vec![reference("a"), class(None, vec![]), function(None, vec![])]);
    assert_eq!(out, vec![reference("a"), class(Some("f"), vec![]), function(None, vec![])]);
    let mut r = with("f");
    assert_eq!(r.fold_nodes(vec![]), vec![]);
    assert_eq!(r.name, Some(ident("f")));
}
