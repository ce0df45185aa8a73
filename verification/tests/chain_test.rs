use tahini::ast::{Literal, Statement};
use tahini::parser::statement;
use tahini::transformer::ast::{AccessSegment, TransformedStmt};
use tahini::transformer::dollar::{try_linearize, DollarChain};

fn ident(text: &str) -> Statement {
    Statement::Ident(text.to_string())
}

fn number(n: i64) -> Statement {
    Statement::Literal(Literal::Int(n))
}

fn field(text: &str) -> AccessSegment {
    AccessSegment::Field(text.to_string())
}

fn chain_of(text: &str) -> Option<DollarChain> {
    try_linearize(&statement(text).unwrap())
}

#[test]
fn nested_access_is_a_flat_chain() {
    assert_eq!(
        chain_of("($ :x ($ :y a))"),
        Some(DollarChain::Access {
            root: Box::new(ident("a")),
            segments: vec![field("x"), field("y")],
        })
    );
}

#[test]
fn assignment_keeps_its_value() {
    assert_eq!(
        chain_of("($ :x ($ :y a) 10)"),
        Some(DollarChain::Assign {
            root: Box::new(ident("a")),
            segments: vec![field("x"), field("y")],
            value: Box::new(number(10)),
        })
    );
}

#[test]
fn index_access_and_assignment() {
    assert_eq!(
        chain_of("($ [0] a)"),
        Some(DollarChain::Access {
            root: Box::new(ident("a")),
            segments: vec![AccessSegment::Index(Box::new(number(0)))],
        })
    );
    assert_eq!(
        chain_of("($ [0] a b)"),
        Some(DollarChain::Assign {
            root: Box::new(ident("a")),
            segments: vec![AccessSegment::Index(Box::new(number(0)))],
            value: Box::new(ident("b")),
        })
    );
}

#[test]
fn a_long_mixed_chain() {
    assert_eq!(
        chain_of("($ [i] ($ :a ($ [($ :n k)] ($ :b (f x)))) v)"),
        Some(DollarChain::Assign {
            root: Box::new(Statement::Call("f".to_string(), vec![ident("x")])),
            segments: vec![
                AccessSegment::Index(Box::new(ident("i"))),
                field("a"),
                AccessSegment::Index(Box::new(Statement::GetField(
                    "n".to_string(),
                    Box::new(ident("k"))
                ))),
                field("b"),
            ],
            value: Box::new(ident("v")),
        })
    );
}

#[test]
fn what_is_no_dollar_form_is_no_chain() {
    for text in ["a", "10", "(f ($ :x a))", "(do ($ :x a))", "(if a ($ :x a))", "[($ :x a)]", "($ a b)"] {
        assert_eq!(chain_of(text), None, "{}", text);
    }
}

#[test]
fn an_assignment_inside_a_chain_is_its_root() {
    let inner = statement("($ :y a 1)").unwrap();
    assert_eq!(
        chain_of("($ :x ($ :y a 1))"),
        Some(DollarChain::Access { root: Box::new(inner.clone()), segments: vec![field("x")] })
    );
    assert_eq!(
        chain_of("($ [0] ($ :y a 1) 2)"),
        Some(DollarChain::Assign {
            root: Box::new(inner),
            segments: vec![AccessSegment::Index(Box::new(number(0)))],
            value: Box::new(number(2)),
        })
    );
}

#[test]
fn the_statement_is_left_as_it_was() {
    let s = statement("($ :x ($ [0] a) (g 1))").unwrap();
    let before = s.clone();
    let _ = try_linearize(&s);
    assert_eq!(s, before);
}

#[test]
fn transformed_statements_compare_by_value() {
    let chain = TransformedStmt::ChainAccess { root: Box::new(ident("a")), segments: vec![field("x")] };
    assert_eq!(chain.clone(), chain);
    assert_ne!(chain, TransformedStmt::Orig(ident("a")));
    let closure = TransformedStmt::MakeClosure { fn_name: "f".to_string(), env: vec![number(1)] };
    assert_ne!(closure, chain);
}
