use tahini::outcome::ParseError;
use tahini::parser::{literal, parser, statement, var_type};

fn is_edge(c: char) -> bool {
    c.is_whitespace() || "()[]{}".contains(c)
}

/// Every text that comes of `text` by one run of whitespace put in at an end,
/// next to whitespace or next to a bracket.
fn widened(text: &str) -> Vec<String> {
    let chars: Vec<char> = text.chars().collect();
    let mut out = Vec::new();
    for i in 0..=chars.len() {
        let gap = i == 0 || i == chars.len() || is_edge(chars[i - 1]) || is_edge(chars[i]);
        if gap {
            for run in [" ", "\n", "\t \r\n", "\u{3000}\u{a0}"] {
                let mut wide: String = chars[..i].iter().collect();
                wide.push_str(run);
                wide.extend(chars[i..].iter());
                out.push(wide);
            }
        }
    }
    out
}

fn alike<T: PartialEq>(a: &Result<T, ParseError>, b: &Result<T, ParseError>) -> bool {
    match (a, b) {
        (Ok(x), Ok(y)) => x == y,
        (Err(e), Err(f)) => e.kind == f.kind,
        _ => false,
    }
}

#[test]
fn more_whitespace_leaves_a_type_as_it_is() {
    for text in [
        "i32",
        "[i32 10]",
        "(array i32 10)",
        "(ptr<K V>)",
        "(struct (:a i32) (:a f64))",
        "(struct (:a i32) (:b f64))",
        "fn<K V>[i32 f64 ...]i32",
        "(data<T> [:none] [:some T {i8 [u8]}])",
        "(tuple<A B> A (ptr B)",
        "[i8 99999999999999999999999]",
    ] {
        let expected = var_type(text);
        for wide in widened(text) {
            assert!(alike(&expected, &var_type(&wide)), "{:?}", wide);
        }
    }
}

#[test]
fn more_whitespace_leaves_a_statement_as_it_is() {
    for text in [
        "(option<i8> :some 10)",
        "($ :x ($ :y a))",
        "($ :x ($ :y a) 10)",
        "($ [0] a)",
        "($ [0] a b)",
        "(if (< n 2) n (+ (fib (- n 1)) (fib (- n 2))))",
        "(do (def f (fn<T> [(:a [T 3])] void {[:t 1.5] true [a b]})) (g<i8> :x))",
        "(if a b c d)",
        "(f 99999999999999999999)",
    ] {
        let expected = statement(text);
        for wide in widened(text) {
            assert!(alike(&expected, &statement(&wide)), "{:?}", wide);
        }
    }
}

#[test]
fn more_whitespace_leaves_a_literal_as_it_is() {
    for text in ["42", "0.1312", "true", ":my_atom", "12.", "99999999999999999999"] {
        let expected = literal(text);
        for wide in widened(text) {
            assert!(alike(&expected, &literal(&wide)), "{:?}", wide);
        }
    }
}

#[test]
fn more_whitespace_leaves_a_unit_as_it_is() {
    for text in [
        "(def fib (fn [(:n i32)] i32 (if (< n 2) n (+ (fib (- n 1)) (fib (- n 2))))))",
        "(def a 10)\n(def b (ptr i32))\n(type my_type [i32 10])(export [a b])(export :all)",
        "(def a 10) (type t (struct (:x i8) (:x i8)))",
        "(def a 10) (def b",
    ] {
        let expected = parser(text);
        for wide in widened(text) {
            assert!(alike(&expected, &parser(&wide)), "{:?}", wide);
        }
    }
}

#[test]
fn whitespace_inside_a_token_is_another_matter() {
    assert_ne!(statement("(f ab)"), statement("(f a b)"));
    assert_ne!(statement("(option<i8> 1)"), statement("(option <i8> 1)"));
    assert_ne!(statement("\"a b\""), statement("\"a  b\""));
    assert!(literal(": a").is_err());
    assert!(literal("1 .5").is_err());
}
