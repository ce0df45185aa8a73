use tahini::ast::VarType;
use tahini::outcome::{ErrorKind, ParseError};
use tahini::parser::var_type;

fn name(text: &str) -> String {
    text.to_string()
}

#[test]
fn every_scalar_keyword_is_its_type() {
    let cases = vec![
        ("i8", VarType::Int8),
        ("i16", VarType::Int16),
        ("i32", VarType::Int32),
        ("i64", VarType::Int64),
        ("i128", VarType::Int128),
        ("u8", VarType::UInt8),
        ("u16", VarType::UInt16),
        ("u32", VarType::UInt32),
        ("u64", VarType::UInt64),
        ("u128", VarType::UInt128),
        ("f16", VarType::Float16),
        ("f32", VarType::Float32),
        ("f64", VarType::Float64),
        ("f128", VarType::Float128),
        ("bool", VarType::Bool),
        ("void", VarType::Void),
    ];
    for (text, expected) in cases {
        assert_eq!(var_type(text), Ok(expected));
    }
}

#[test]
fn array_shorthand_and_long_form_agree() {
    let expected = VarType::ArraySized(Box::new(VarType::Int32), 10);
    assert_eq!(var_type("[i32 10]"), Ok(expected.clone()));
    assert_eq!(var_type("(array i32 10)"), Ok(expected));
    let unsized_array = VarType::ArrayUnsized(Box::new(VarType::Int32));
    assert_eq!(var_type("[i32]"), Ok(unsized_array.clone()));
    assert_eq!(var_type("(array i32)"), Ok(unsized_array));
}

#[test]
fn generic_pointer_takes_one_parameter() {
    assert_eq!(
        var_type("(ptr<K V>)"),
        Err(ParseError { kind: ErrorKind::GenericArity, position: 4 })
    );
    assert_eq!(var_type("(ptr<K>)"), Ok(VarType::GenericPtr(name("K"))));
}

#[test]
fn generic_array_takes_one_parameter() {
    assert_eq!(
        var_type("(array<K V>)"),
        Err(ParseError { kind: ErrorKind::GenericArity, position: 6 })
    );
    assert_eq!(
        var_type("(array<K V> 3)"),
        Err(ParseError { kind: ErrorKind::GenericArity, position: 6 })
    );
    assert_eq!(var_type("(array<K> 3)"), Ok(VarType::GenericArraySized(name("K"), 3)));
}

#[test]
fn struct_fields_have_distinct_names() {
    assert_eq!(
        var_type("(struct (:a i32) (:a f64))"),
        Err(ParseError { kind: ErrorKind::DuplicateName, position: 0 })
    );
    assert_eq!(
        var_type("(struct (:a i32) (:b f64))"),
        Ok(VarType::Struct(vec![(name("a"), VarType::Int32), (name("b"), VarType::Float64)]))
    );
    assert_eq!(
        var_type("(struct (:a i32) (:b f64) (:c i8) (:b i8))"),
        Err(ParseError { kind: ErrorKind::DuplicateName, position: 0 })
    );
}

#[test]
fn data_variants_have_distinct_tags() {
    assert_eq!(
        var_type(" (data [:a i32] [:a])"),
        Err(ParseError { kind: ErrorKind::DuplicateName, position: 1 })
    );
    assert_eq!(
        var_type("(data [:none] [:some i32 i64])"),
        Ok(VarType::Data(vec![
            (name("none"), vec![]),
            (name("some"), vec![VarType::Int32, VarType::Int64]),
        ]))
    );
}

#[test]
fn a_failure_inside_ends_the_whole_parse() {
    assert_eq!(
        var_type("(struct (:a (ptr<K V>)))"),
        Err(ParseError { kind: ErrorKind::GenericArity, position: 16 })
    );
    assert_eq!(
        var_type("{i32 (struct (:x i8) (:x i8))}"),
        Err(ParseError { kind: ErrorKind::DuplicateName, position: 5 })
    );
}

#[test]
fn function_type_has_four_shapes() {
    let params = vec![VarType::Int32, VarType::Float64];
    let generics = vec![name("K"), name("V")];
    assert_eq!(
        var_type("fn<K V>[i32 f64 ...]i32"),
        Ok(VarType::GenericFnWithVarArgs(
            generics.clone(),
            params.clone(),
            Box::new(VarType::Int32)
        ))
    );
    assert_eq!(
        var_type("fn<K V>[i32 f64]i32"),
        Ok(VarType::GenericFn(generics, params.clone(), Box::new(VarType::Int32)))
    );
    assert_eq!(
        var_type("fn[i32 f64 ...]i32"),
        Ok(VarType::FnWithVarArgs(params.clone(), Box::new(VarType::Int32)))
    );
    assert_eq!(var_type("fn[i32 f64]i32"), Ok(VarType::Fn(params, Box::new(VarType::Int32))));
    assert_eq!(var_type("fn[]void"), Ok(VarType::Fn(vec![], Box::new(VarType::Void))));
    assert_eq!(var_type("fn[...]void"), Ok(VarType::FnWithVarArgs(vec![], Box::new(VarType::Void))));
}

#[test]
fn tuples_in_both_forms() {
    let items = vec![VarType::Int8, VarType::Bool];
    assert_eq!(var_type("{i8 bool}"), Ok(VarType::Tuple(items.clone())));
    assert_eq!(var_type("(tuple i8 bool)"), Ok(VarType::Tuple(items.clone())));
    assert_eq!(
        var_type("(tuple<T> i8 bool)"),
        Ok(VarType::GenericTuple(vec![name("T")], items))
    );
    assert_eq!(var_type("{}"), Err(ParseError { kind: ErrorKind::Syntax, position: 1 }));
    assert_eq!(var_type("(tuple)"), Err(ParseError { kind: ErrorKind::Syntax, position: 6 }));
}

#[test]
fn types_nest() {
    assert_eq!(
        var_type("(ptr [(ptr {i8 my_type}) 4])"),
        Ok(VarType::Ptr(Box::new(VarType::ArraySized(
            Box::new(VarType::Ptr(Box::new(VarType::Tuple(vec![
                VarType::Int8,
                VarType::IdentType(name("my_type")),
            ])))),
            4
        ))))
    );
}

#[test]
fn a_name_is_a_type() {
    assert_eq!(var_type("str"), Ok(VarType::IdentType(name("str"))));
    assert_eq!(var_type("my-type/v"), Ok(VarType::IdentType(name("my-type/v"))));
}

#[test]
fn a_keyword_ends_where_its_word_ends() {
    assert_eq!(var_type("booleans"), Ok(VarType::IdentType(name("booleans"))));
    assert_eq!(var_type("(pointer i32)"), Err(ParseError { kind: ErrorKind::Syntax, position: 1 }));
    assert_eq!(var_type("i32x"), Err(ParseError { kind: ErrorKind::Syntax, position: 1 }));
}

#[test]
fn reserved_words_are_no_types() {
    for text in ["def", "fn", "if", "do", "use", "array", "ptr", "data", "struct", "tuple", "...", "true", "false"] {
        assert!(var_type(text).is_err(), "{}", text);
    }
}

#[test]
fn array_size_must_fit() {
    assert_eq!(
        var_type("[i8 18446744073709551615]"),
        Ok(VarType::ArraySized(Box::new(VarType::Int8), 18446744073709551615))
    );
    assert_eq!(
        var_type("[i8 18446744073709551616]"),
        Err(ParseError { kind: ErrorKind::NumberRange, position: 4 })
    );
    assert_eq!(
        var_type("(array<T> 99999999999999999999999)"),
        Err(ParseError { kind: ErrorKind::NumberRange, position: 10 })
    );
    assert_eq!(var_type("[i8 007]"), Ok(VarType::ArraySized(Box::new(VarType::Int8), 7)));
}

#[test]
fn syntax_errors_say_how_far_the_parse_got() {
    assert_eq!(var_type(""), Err(ParseError { kind: ErrorKind::Syntax, position: 0 }));
    assert_eq!(var_type("(ptr i32"), Err(ParseError { kind: ErrorKind::Syntax, position: 8 }));
    assert_eq!(var_type("i32 i32"), Err(ParseError { kind: ErrorKind::Syntax, position: 4 }));
    assert_eq!(var_type("[i32 10"), Err(ParseError { kind: ErrorKind::Syntax, position: 7 }));
    assert_eq!(var_type("(struct)"), Err(ParseError { kind: ErrorKind::Syntax, position: 7 }));
}

#[test]
fn whitespace_around_type_tokens_changes_nothing() {
    assert_eq!(var_type(" \t\n i32 \r\n "), Ok(VarType::Int32));
    assert_eq!(var_type("  f64"), Ok(VarType::Float64));
    assert_eq!(var_type("bool\n"), Ok(VarType::Bool));
    let array = VarType::ArraySized(Box::new(VarType::Int32), 10);
    assert_eq!(var_type(" [ i32\n\n10 ] "), Ok(array.clone()));
    assert_eq!(var_type("(  array\ti32   10\n)"), Ok(array));
    assert!(var_type("( ptr < K  V > )").is_err());
    assert!(var_type("( struct ( :a  i32 )\n( :a f64 ) )").is_err());
    assert_eq!(
        var_type("\n( struct\n  ( :a i32 )\n  ( :b f64 )\n)\n"),
        Ok(VarType::Struct(vec![(name("a"), VarType::Int32), (name("b"), VarType::Float64)]))
    );
    assert_eq!(
        var_type(" fn < K\nV > [ i32  f64   ... ]  i32 "),
        Ok(VarType::GenericFnWithVarArgs(
            vec![name("K"), name("V")],
            vec![VarType::Int32, VarType::Float64],
            Box::new(VarType::Int32)
        ))
    );
}

#[test]
fn every_unicode_space_is_whitespace() {
    assert_eq!(var_type("\u{a0}i32\u{3000}"), Ok(VarType::Int32));
    assert_eq!(var_type("\u{2003}[\u{85}i8\u{1680}3\u{2028}]\u{205f}"), Ok(VarType::ArraySized(Box::new(VarType::Int8), 3)));
    assert!(var_type("\u{200b}i32").is_err());
}

#[test]
fn whitespace_is_what_the_standard_library_calls_whitespace() {
    for code in 0..=0x10ffffu32 {
        if let Some(c) = char::from_u32(code) {
            assert_eq!(tahini::text::space(c), c.is_whitespace(), "{:x}", code);
        }
    }
}

#[test]
fn a_name_holds_no_numeric_character() {
    assert_eq!(var_type("x\u{b2}"), Err(ParseError { kind: ErrorKind::Syntax, position: 1 }));
    assert_eq!(var_type("\u{661}"), Err(ParseError { kind: ErrorKind::Syntax, position: 0 }));
    assert_eq!(var_type("h\u{e9}llo"), Ok(VarType::IdentType(name("h\u{e9}llo"))));
}

#[test]
fn a_copy_of_a_type_equals_it() {
    let t = var_type("(data<T> [:a (struct (:x fn<K>[i8 ...]T))] [:b {i8 [u8 2]}])").unwrap();
    assert_eq!(t.clone(), t);
    assert_eq!(t.duplicate(), t);
}
