use tahini::ast::Literal;
use tahini::parser::literal;

#[test]
fn test_literal_int() {
    let input = "42";
    let result = literal(input).unwrap();
    assert_eq!(result, Literal::Int(42));
}

#[test]
fn test_literal_float() {
    let input = "0.1312";
    let result = literal(input).unwrap();
    match &result {
        Literal::Float(text) => assert_eq!(text.parse::<f64>().unwrap(), 0.1312),
        _ => panic!("not a float"),
    }
    assert_eq!(result, Literal::Float("0.1312".to_string()));
}

#[test]
fn test_literal_bool() {
    let input = "true";
    let result = literal(input).unwrap();
    assert_eq!(result, Literal::Bool(true));
}

#[test]
fn test_literal_char() {
    let input = "'c'";
    let result = literal(input).unwrap();
    assert_eq!(result, Literal::Char('c'));
}

#[test]
fn test_literal_string() {
    let input = "\"hello\"";
    let result = literal(input).unwrap();
    assert_eq!(result, Literal::String("hello".to_string()));
}

#[test]
fn test_literal_atom() {
    let input = ":my_atom";
    let result = literal(input).unwrap();
    assert_eq!(result, Literal::Atom("my_atom".to_string()));
}
