use name_inference::ast::{
    AssignExpr, AssignOp, ClassExpr, FnExpr, Ident, KeyValueProp, Node, NodeKind, PropName, Span,
    VarDeclarator,
};
use name_inference::usage::{references, references_any, references_key};

fn ident(sym: &str, lo: u32) -> Ident {
    Ident { sym: sym.to_string(), span: Span { lo, hi: lo + sym.len() as u32, ctxt: 0 }, private: false }
}

fn reference(sym: &str) -> Node {
    Node::Ident(ident(sym, 0))
}

fn tree(kind: NodeKind, children: Vec<Node>) -> Node {
    Node::Tree { kind, children }
}

#[test]
fn identifier_is_found_by_text_not_by_position() {
    assert!(references(&ident("x", 100), &Node::Ident(ident("x", 3))));
    assert!(!references(&ident("x", 3), &Node::Ident(ident("y", 3))));
}

#[test]
fn private_flag_does_not_matter_to_the_scan() {
    let wanted = Ident { sym: "x".to_string(), span: Span { lo: 0, hi: 1, ctxt: 0 }, private: true };
    assert!(references(&wanted, &reference("x")));
}

#[test]
fn scan_goes_into_every_kind_of_tree() {
    for kind in [
        NodeKind::Object,
        NodeKind::Array,
        NodeKind::Call,
        NodeKind::New,
        NodeKind::Bin,
        NodeKind::Unary,
        NodeKind::Other,
    ] {
        let deep = tree(kind, vec![reference("a"), tree(NodeKind::Other, vec![reference("x")])]);
        assert!(references(&ident("x", 0), &deep));
        assert!(!references(&ident("z", 0), &deep));
    }
}

#[test]
fn empty_tree_mentions_nothing() {
    assert!(!references(&ident("x", 0), &tree(NodeKind::Other, vec![])));
    assert!(!references_any(&ident("x", 0), &vec![]));
}

#[test]
fn names_of_nested_functions_and_classes_count() {
    let f = Node::Fn(FnExpr { ident: Some(ident("x", 0)), body: vec![] });
    let c = Node::Class(ClassExpr { ident: Some(ident("x", 0)), body: vec![] });
    let anonymous = Node::Fn(FnExpr { ident: None, body: vec![reference("y")] });
    assert!(references(&ident("x", 9), &f));
    assert!(references(&ident("x", 9), &c));
    assert!(!references(&ident("x", 9), &anonymous));
    assert!(references(&ident("y", 9), &anonymous));
}

#[test]
fn class_body_is_scanned() {
    let c = Node::Class(ClassExpr { ident: None, body: vec![reference("Base")] });
    assert!(references(&ident("Base", 0), &c));
}

#[test]
fn property_keys_are_scanned() {
    let value = || Box::new(tree(NodeKind::Other, vec![]));
    let by_ident = Node::KeyValue(KeyValueProp { key: PropName::Ident(ident("x", 0)), value: value() });
    let by_string = Node::KeyValue(KeyValueProp { key: PropName::Str("x".to_string()), value: value() });
    let by_number = Node::KeyValue(KeyValueProp { key: PropName::Num("1".to_string()), value: value() });
    let computed = Node::KeyValue(KeyValueProp {
        key: PropName::Computed(Box::new(reference("x"))),
        value: value(),
    });
    let in_value = Node::KeyValue(KeyValueProp {
        key: PropName::Str("k".to_string()),
        value: Box::new(reference("x")),
    });
    assert!(references(&ident("x", 0), &by_ident));
    assert!(!references(&ident("x", 0), &by_string));
    assert!(!references(&ident("1", 0), &by_number));
    assert!(references(&ident("x", 0), &computed));
    assert!(references(&ident("x", 0), &in_value));
    assert!(references_key(&ident("x", 0), &PropName::Ident(ident("x", 5))));
    assert!(!references_key(&ident("x", 0), &PropName::Str("x".to_string())));
}

#[test]
fn declarators_and_assignments_are_scanned_on_both_sides() {
    let decl = |name: &str, init: Option<&str>| {
        Node::VarDeclarator(VarDeclarator {
            name: Box::new(reference(name)),
            init: init.map(|i| Box::new(reference(i))),
        })
    };
    assert!(references(&ident("a", 0), &decl("a", None)));
    assert!(references(&ident("b", 0), &decl("a", Some("b"))));
    assert!(!references(&ident("c", 0), &decl("a", Some("b"))));
    let assign = Node::Assign(AssignExpr {
        op: AssignOp::MulAssign,
        left: Box::new(reference("l")),
        right: Box::new(reference("r")),
    });
    assert!(references(&ident("l", 0), &assign));
    assert!(references(&ident("r", 0), &assign));
    assert!(!references(&ident("x", 0), &assign));
}

#[test]
fn any_of_the_siblings_is_enough() {
    let nodes = vec![reference("a"), reference("b"), reference("c")];
    assert!(references_any(&ident("a", 0), &nodes));
    assert!(references_any(&ident("c", 0), &nodes));
    assert!(!references_any(&ident("d", 0), &nodes));
}
