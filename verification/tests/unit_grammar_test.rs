use tahini::ast::{DefVar, FnDef, Literal, Statement, TopLevelDef, TopLevelStatement, VarType};
use tahini::outcome::{ErrorKind, ParseError};
use tahini::parser::parser;
use tahini::transformer::transform;

fn name(text: &str) -> String {
    text.to_string()
}

fn ident(text: &str) -> Statement {
    Statement::Ident(text.to_string())
}

fn number(n: i64) -> Statement {
    Statement::Literal(Literal::Int(n))
}

fn call(callee: &str, arguments: Vec<Statement>) -> Statement {
    Statement::Call(callee.to_string(), arguments)
}

fn fib() -> TopLevelStatement {
    TopLevelStatement::TopLevelDef(DefVar {
        name: name("fib"),
        instruction: TopLevelDef::FnDef(FnDef {
            generic_types: None,
            parameters: vec![(name("n"), VarType::Int32)],
            return_type: VarType::Int32,
            statement: Statement::IfElse(
                Box::new(call("<", vec![ident("n"), number(2)])),
                Box::new(ident("n")),
                Box::new(call(
                    "+",
                    vec![
                        call("fib", vec![call("-", vec![ident("n"), number(1)])]),
                        call("fib", vec![call("-", vec![ident("n"), number(2)])]),
                    ],
                )),
            ),
        }),
    })
}

#[test]
fn a_small_function() {
    let text = "(def fib (fn [(:n i32)] i32 (if (< n 2) n (+ (fib (- n 1)) (fib (- n 2))))))";
    assert_eq!(parser(text), Ok(vec![fib()]));
}

#[test]
fn a_small_function_with_whitespace_everywhere() {
    let text = "\n ( def fib\n   ( fn [ ( :n i32 ) ] i32\n     ( if ( < n 2 ) n ( + ( fib ( - n 1 ) ) ( fib ( - n 2 ) ) ) ) ) )\n";
    assert_eq!(parser(text), Ok(vec![fib()]));
}

#[test]
fn an_empty_unit() {
    assert_eq!(parser(""), Ok(vec![]));
    assert_eq!(parser(" \n\t "), Ok(vec![]));
}

#[test]
fn payloads_in_their_order() {
    assert_eq!(
        parser("(def a true) (def b bool) (def c \"s\") (def d (use \"s\")) (def e fn[]void)"),
        Ok(vec![
            TopLevelStatement::TopLevelDef(DefVar {
                name: name("a"),
                instruction: TopLevelDef::Literal(Literal::Bool(true)),
            }),
            TopLevelStatement::TopLevelDef(DefVar {
                name: name("b"),
                instruction: TopLevelDef::Typed(VarType::Bool),
            }),
            TopLevelStatement::TopLevelDef(DefVar {
                name: name("c"),
                instruction: TopLevelDef::Literal(Literal::String(name("s"))),
            }),
            TopLevelStatement::Use(name("d"), name("s")),
            TopLevelStatement::TopLevelDef(DefVar {
                name: name("e"),
                instruction: TopLevelDef::Typed(VarType::Fn(vec![], Box::new(VarType::Void))),
            }),
        ])
    );
}

#[test]
fn imports_and_exports() {
    assert_eq!(
        parser("( def io ( use :header \"stdio.h\" ) )\n(export [main  io])\n(export [])\n( export :all )"),
        Ok(vec![
            TopLevelStatement::UseHeader(name("io"), name("stdio.h")),
            TopLevelStatement::Export(vec![name("main"), name("io")]),
            TopLevelStatement::Export(vec![]),
            TopLevelStatement::ExportAll(),
        ])
    );
    assert_eq!(
        parser("(def io (use :headers \"x\"))"),
        Err(ParseError { kind: ErrorKind::Syntax, position: 13 })
    );
}

#[test]
fn the_first_error_is_reported_where_it_lies() {
    assert_eq!(
        parser("(def a 1) (def b 2"),
        Err(ParseError { kind: ErrorKind::Syntax, position: 18 })
    );
    assert_eq!(
        parser("(def a 1)\n(type t (ptr<A B>))\n(def"),
        Err(ParseError { kind: ErrorKind::GenericArity, position: 22 })
    );
    assert_eq!(
        parser("(def a 99999999999999999999)"),
        Err(ParseError { kind: ErrorKind::NumberRange, position: 7 })
    );
    assert_eq!(
        parser("(type s (struct (:x i8) (:x i8)))"),
        Err(ParseError { kind: ErrorKind::DuplicateName, position: 8 })
    );
    assert_eq!(parser("x"), Err(ParseError { kind: ErrorKind::Syntax, position: 0 }));
    assert_eq!(parser("(def a (f x))"), Err(ParseError { kind: ErrorKind::Syntax, position: 8 }));
}

#[test]
fn positions_count_characters() {
    assert_eq!(
        parser("(def na\u{ef}ve \"\u{4e16}\u{754c}\") ?"),
        Err(ParseError { kind: ErrorKind::Syntax, position: 17 })
    );
}

#[test]
fn the_transform_keeps_the_declarations() {
    let unit = parser("(def a 10)\n(type t [i8 2])\n(def f (fn [] i8 ($ :x ($ [0] a))))\n(export :all)")
        .unwrap();
    let once = transform(&unit);
    assert_eq!(once.items, unit);
    let twice = transform(&once.items);
    assert_eq!(twice, once);
    assert_eq!(transform(&[]).items, vec![]);
}
