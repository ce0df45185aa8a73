use tahini::ast::{DefVar, FnDef, Literal, Statement, VarType};
use tahini::outcome::{ErrorKind, ParseError};
use tahini::parser::{literal, statement};

fn name(text: &str) -> String {
    text.to_string()
}

fn ident(text: &str) -> Statement {
    Statement::Ident(text.to_string())
}

fn number(n: i64) -> Statement {
    Statement::Literal(Literal::Int(n))
}

#[test]
fn integers_up_to_the_largest() {
    assert_eq!(literal("0"), Ok(Literal::Int(0)));
    assert_eq!(literal("007"), Ok(Literal::Int(7)));
    assert_eq!(literal("9223372036854775807"), Ok(Literal::Int(9223372036854775807)));
    assert_eq!(
        literal("9223372036854775808"),
        Err(ParseError { kind: ErrorKind::NumberRange, position: 0 })
    );
    assert_eq!(
        literal("  123456789012345678901234567890"),
        Err(ParseError { kind: ErrorKind::NumberRange, position: 2 })
    );
    assert_eq!(
        statement("(f 1 99999999999999999999)"),
        Err(ParseError { kind: ErrorKind::NumberRange, position: 5 })
    );
}

#[test]
fn decimal_numbers_keep_their_text() {
    assert_eq!(literal("3.25"), Ok(Literal::Float(name("3.25"))));
    assert_eq!(literal("0.05"), Ok(Literal::Float(name("0.05"))));
    assert_eq!(
        literal("99999999999999999999.5"),
        Ok(Literal::Float(name("99999999999999999999.5")))
    );
    assert_eq!(literal("1."), Err(ParseError { kind: ErrorKind::Syntax, position: 1 }));
    assert_eq!(literal(".5"), Err(ParseError { kind: ErrorKind::Syntax, position: 0 }));
}

#[test]
fn other_scalar_literals() {
    assert_eq!(literal("false"), Ok(Literal::Bool(false)));
    assert_eq!(literal("' '"), Ok(Literal::Char(' ')));
    assert_eq!(literal("'\u{e9}'"), Ok(Literal::Char('\u{e9}')));
    assert_eq!(literal("'\"'"), Ok(Literal::Char('"')));
    assert_eq!(literal("''"), Err(ParseError { kind: ErrorKind::Syntax, position: 1 }));
    assert_eq!(literal("'ab'"), Err(ParseError { kind: ErrorKind::Syntax, position: 2 }));
    assert_eq!(literal("\"\""), Ok(Literal::String(name(""))));
    assert_eq!(literal("\"a\\n'b\n\""), Ok(Literal::String(name("a\\n'b\n"))));
    assert_eq!(literal("\"open"), Err(ParseError { kind: ErrorKind::Syntax, position: 5 }));
    assert_eq!(literal(":ok"), Ok(Literal::Atom(name("ok"))));
    assert_eq!(literal(": ok"), Err(ParseError { kind: ErrorKind::Syntax, position: 0 }));
    assert_eq!(literal(":if"), Err(ParseError { kind: ErrorKind::Syntax, position: 0 }));
    assert_eq!(literal(" \n:ok\t"), Ok(Literal::Atom(name("ok"))));
    assert_eq!(literal("truest"), Err(ParseError { kind: ErrorKind::Syntax, position: 0 }));
}

#[test]
fn generic_call_names_its_type_arguments() {
    assert_eq!(
        statement("(option<i8> :some 10)"),
        Ok(Statement::GenericCall(
            name("option"),
            vec![name("i8")],
            vec![Statement::Literal(Literal::Atom(name("some"))), number(10)]
        ))
    );
    assert_eq!(
        statement("(pair< K  V > a)"),
        Ok(Statement::GenericCall(name("pair"), vec![name("K"), name("V")], vec![ident("a")]))
    );
}

#[test]
fn comparison_operators_are_names() {
    assert_eq!(statement("(<= a b)"), Ok(Statement::Call(name("<="), vec![ident("a"), ident("b")])));
    assert_eq!(statement("(> a b)"), Ok(Statement::Call(name(">"), vec![ident("a"), ident("b")])));
    assert_eq!(statement("(a<b c)"), Ok(Statement::Call(name("a<b"), vec![ident("c")])));
}

#[test]
fn if_with_and_without_else() {
    assert_eq!(
        statement("(if c 1)"),
        Ok(Statement::If(Box::new(ident("c")), Box::new(number(1))))
    );
    assert_eq!(
        statement("(if c 1 2)"),
        Ok(Statement::IfElse(Box::new(ident("c")), Box::new(number(1)), Box::new(number(2))))
    );
    assert_eq!(statement("(if c 1 2 3)"), Err(ParseError { kind: ErrorKind::Syntax, position: 10 }));
    assert_eq!(statement("(if c)"), Err(ParseError { kind: ErrorKind::Syntax, position: 5 }));
}

#[test]
fn blocks_bindings_and_calls() {
    assert_eq!(statement("(do)"), Ok(Statement::DoBlock(vec![])));
    assert_eq!(
        statement("(do (def x 1) (def x 2) x)"),
        Ok(Statement::DoBlock(vec![
            Statement::DefVar(DefVar { name: name("x"), instruction: Box::new(number(1)) }),
            Statement::DefVar(DefVar { name: name("x"), instruction: Box::new(number(2)) }),
            ident("x"),
        ]))
    );
    assert_eq!(statement("(f)"), Ok(Statement::Call(name("f"), vec![])));
    assert_eq!(
        statement("(for (< i n) (do))"),
        Ok(Statement::Call(
            name("for"),
            vec![
                Statement::Call(name("<"), vec![ident("i"), ident("n")]),
                Statement::DoBlock(vec![]),
            ]
        ))
    );
}

#[test]
fn a_keyword_is_a_whole_word() {
    assert_eq!(
        statement("(iffy a b)"),
        Ok(Statement::Call(name("iffy"), vec![ident("a"), ident("b")]))
    );
    assert_eq!(statement("(do-it x)"), Ok(Statement::Call(name("do-it"), vec![ident("x")])));
    assert_eq!(statement("(define x)"), Ok(Statement::Call(name("define"), vec![ident("x")])));
    assert_eq!(statement("trueish"), Ok(ident("trueish")));
}

#[test]
fn reserved_words_are_no_names() {
    assert_eq!(statement("def"), Err(ParseError { kind: ErrorKind::Syntax, position: 0 }));
    assert_eq!(statement("(fn)"), Err(ParseError { kind: ErrorKind::Syntax, position: 3 }));
    assert_eq!(statement("(def if 1)"), Err(ParseError { kind: ErrorKind::Syntax, position: 5 }));
    assert_eq!(statement("true"), Ok(Statement::Literal(Literal::Bool(true))));
}

#[test]
fn composite_literals() {
    assert_eq!(statement("{}"), Ok(Statement::Literal(Literal::Tuple(vec![]))));
    assert_eq!(statement("[]"), Ok(Statement::Literal(Literal::Array(vec![]))));
    assert_eq!(
        statement("[ :none ]"),
        Ok(Statement::Literal(Literal::Data(name("none"), vec![])))
    );
    assert_eq!(
        statement("[a :b]"),
        Ok(Statement::Literal(Literal::Array(vec![
            ident("a"),
            Statement::Literal(Literal::Atom(name("b"))),
        ])))
    );
    assert_eq!(
        statement("{[1 {2}] \"s\"}"),
        Ok(Statement::Literal(Literal::Tuple(vec![
            Statement::Literal(Literal::Array(vec![
                number(1),
                Statement::Literal(Literal::Tuple(vec![number(2)])),
            ])),
            Statement::Literal(Literal::String(name("s"))),
        ])))
    );
}

#[test]
fn dollar_forms_by_arity() {
    assert_eq!(statement("($:x a)"), Ok(Statement::GetField(name("x"), Box::new(ident("a")))));
    assert_eq!(
        statement("($ [(+ i 1)] a)"),
        Ok(Statement::GetIndexed(
            Box::new(Statement::Call(name("+"), vec![ident("i"), number(1)])),
            Box::new(ident("a"))
        ))
    );
    assert_eq!(
        statement("($ a b)"),
        Ok(Statement::Call(name("$"), vec![ident("a"), ident("b")]))
    );
    assert_eq!(
        statement("($ :x a b c)"),
        Ok(Statement::Call(
            name("$"),
            vec![Statement::Literal(Literal::Atom(name("x"))), ident("a"), ident("b"), ident("c")]
        ))
    );
}

#[test]
fn generic_function_literal() {
    assert_eq!(
        statement("(fn<T> [(:x T)] T x)"),
        Ok(Statement::Literal(Literal::Fn(Box::new(FnDef {
            generic_types: Some(vec![name("T")]),
            parameters: vec![(name("x"), VarType::IdentType(name("T")))],
            return_type: VarType::IdentType(name("T")),
            statement: ident("x"),
        }))))
    );
}

#[test]
fn a_failure_in_a_type_ends_the_statement() {
    assert_eq!(
        statement("(do (fn [(:p (ptr<A B>))] i8 p))"),
        Err(ParseError { kind: ErrorKind::GenericArity, position: 17 })
    );
}

#[test]
fn whitespace_around_statement_tokens_changes_nothing() {
    let expected = statement("(option<i8> :some 10)").unwrap();
    assert_eq!(statement("  (  option< i8 >\n:some\t10  )  "), Ok(expected));
    let fib = statement("(if (< n 2) n (+ (fib (- n 1)) (fib (- n 2))))").unwrap();
    assert_eq!(
        statement("\n( if ( < n 2 )\n  n\n  ( + ( fib ( - n 1 ) ) ( fib ( - n 2 ) ) )\n)\n"),
        Ok(fib)
    );
    let access = statement("($ :x ($ :y a) 10)").unwrap();
    assert_eq!(statement(" ( $ :x ( $\n:y a )\t10 ) "), Ok(access));
    let index = statement("($ [0] a b)").unwrap();
    assert_eq!(statement("(\n$\n[\n0\n]\na\nb\n)"), Ok(index));
}

#[test]
fn a_copy_of_a_statement_equals_it() {
    let s = statement(
        "(do (def f (fn<T> [(:a [T 3])] void (if (< a 1.5) ($ [0] a 'c') {[:t \"s\"] true}))) (g<i8> :x))",
    )
    .unwrap();
    assert_eq!(s.clone(), s);
    assert_eq!(s.duplicate(), s);
}

#[test]
fn boxed_keeps_name_and_payload() {
    let def = DefVar { name: name("x"), instruction: number(3) };
    let moved = def.clone().boxed();
    assert_eq!(moved.name, "x");
    assert_eq!(*moved.instruction, number(3));
    assert_eq!(moved, DefVar { name: name("x"), instruction: Box::new(number(3)) });
}
