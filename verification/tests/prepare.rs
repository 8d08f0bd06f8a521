use name_inference::ast::{Ident, Span};
use name_inference::prepare::prepare;

fn user(sym: &str) -> Ident {
    Ident { sym: sym.to_string(), span: Span { lo: 7, hi: 7 + sym.len() as u32, ctxt: 0 }, private: false }
}

#[test]
fn ordinary_identifier_comes_back_unchanged() {
    assert_eq!(prepare(user("number"), false), user("number"));
}

#[test]
fn forced_copy_is_private_with_the_same_text() {
    let out = prepare(user("number"), true);
    assert_eq!(out, Ident { sym: "number".to_string(), span: Span { lo: 7, hi: 13, ctxt: 0 }, private: true });
}

#[test]
fn await_gets_an_underscore() {
    let out = prepare(user("await"), false);
    assert_eq!(out, Ident { sym: "_await".to_string(), span: Span { lo: 7, hi: 12, ctxt: 0 }, private: true });
}

#[test]
fn eval_gets_an_underscore() {
    let out = prepare(user("eval"), false);
    assert_eq!(out, Ident { sym: "_eval".to_string(), span: Span { lo: 7, hi: 11, ctxt: 0 }, private: true });
}

#[test]
fn forced_reserved_word_gets_one_underscore() {
    let out = prepare(user("eval"), true);
    assert_eq!(out.sym, "_eval");
    assert!(out.private);
}

#[test]
fn every_word_of_the_third_edition_gets_an_underscore() {
    let words = [
        "abstract", "boolean", "byte", "char", "double", "final", "float", "goto", "int", "long",
        "native", "short", "synchronized", "throws", "transient", "volatile",
    ];
    for word in words {
        let out = prepare(user(word), false);
        assert_eq!(out.sym, format!("_{}", word));
        assert!(out.private);
        assert_eq!(out.span, Span { lo: 7, hi: 7 + word.len() as u32, ctxt: 0 });
    }
}

#[test]
fn words_outside_the_table_are_kept() {
    for word in ["Abstract", "integer", "in", "_int", "int_", "", "awaits", "evaluate", "arguments"] {
        assert_eq!(prepare(user(word), false), user(word));
    }
}

#[test]
fn prepared_name_is_left_alone_when_prepared_again() {
    let once = prepare(user("goto"), false);
    let twice = prepare(prepare(user("goto"), false), false);
    assert_eq!(once, twice);
}

#[test]
fn clone_of_an_identifier_is_equal() {
    let i = user("x");
    assert_eq!(i.clone(), i);
}
