//! The grammar, as functions from a text and a position to what stands there.
//!
//! Alternatives are tried in the order written and the first that does not
//! miss decides. Whitespace may stand before every token and at the end of
//! the text, and nowhere inside a token. A production named `*_at` expects
//! its first token at the position itself; `type_at` and `stmt_at` skip the
//! whitespace before it.
//!
//! A name is the longest run of characters that are neither whitespace nor
//! `( ) [ ] { } : , " '` nor numeric, unless that run is a reserved word.
//! Between angle brackets, and before an opening one in a call, a name may
//! hold digits and ends at `<` and `>`. A keyword is not followed by a
//! character that such a name could hold.

use vstd::prelude::*;
use crate::model::{Text, TypeModel};
use crate::outcome::{done, ErrorKind, Parsed};
use crate::text::{CharClass, decimal, has_char, has_keyword, has_text, name_len, run, skip_space};

verus! {

/// How many characters of `s` stand at or after `pos`.
pub open spec fn rest(s: Text, pos: nat) -> nat {
    if pos <= s.len() {
        (s.len() - pos) as nat
    } else {
        0
    }
}

/// The characters of `s` from `pos` on, `len` of them.
pub open spec fn piece(s: Text, pos: nat, len: nat) -> Text {
    s.subrange(pos as int, (pos + len) as int)
}

/// The first components of a sequence of pairs.
pub open spec fn firsts<A, B>(pairs: Seq<(A, B)>) -> Seq<A> {
    Seq::new(pairs.len(), |i: int| pairs[i].0)
}

/// One of the sixteen scalar type keywords.
#[verifier::opaque]
pub open spec fn scalar_at(s: Text, pos: nat) -> Parsed<TypeModel> {
    if has_keyword(s, pos, "i8"@) {
        Parsed::Done { value: TypeModel::Int8, len: "i8"@.len() }
    } else if has_keyword(s, pos, "i16"@) {
        Parsed::Done { value: TypeModel::Int16, len: "i16"@.len() }
    } else if has_keyword(s, pos, "i32"@) {
        Parsed::Done { value: TypeModel::Int32, len: "i32"@.len() }
    } else if has_keyword(s, pos, "i64"@) {
        Parsed::Done { value: TypeModel::Int64, len: "i64"@.len() }
    } else if has_keyword(s, pos, "i128"@) {
        Parsed::Done { value: TypeModel::Int128, len: "i128"@.len() }
    } else if has_keyword(s, pos, "u8"@) {
        Parsed::Done { value: TypeModel::UInt8, len: "u8"@.len() }
    } else if has_keyword(s, pos, "u16"@) {
        Parsed::Done { value: TypeModel::UInt16, len: "u16"@.len() }
    } else if has_keyword(s, pos, "u32"@) {
        Parsed::Done { value: TypeModel::UInt32, len: "u32"@.len() }
    } else if has_keyword(s, pos, "u64"@) {
        Parsed::Done { value: TypeModel::UInt64, len: "u64"@.len() }
    } else if has_keyword(s, pos, "u128"@) {
        Parsed::Done { value: TypeModel::UInt128, len: "u128"@.len() }
    } else if has_keyword(s, pos, "f16"@) {
        Parsed::Done { value: TypeModel::Float16, len: "f16"@.len() }
    } else if has_keyword(s, pos, "f32"@) {
        Parsed::Done { value: TypeModel::Float32, len: "f32"@.len() }
    } else if has_keyword(s, pos, "f64"@) {
        Parsed::Done { value: TypeModel::Float64, len: "f64"@.len() }
    } else if has_keyword(s, pos, "f128"@) {
        Parsed::Done { value: TypeModel::Float128, len: "f128"@.len() }
    } else if has_keyword(s, pos, "bool"@) {
        Parsed::Done { value: TypeModel::Bool, len: "bool"@.len() }
    } else if has_keyword(s, pos, "void"@) {
        Parsed::Done { value: TypeModel::Void, len: "void"@.len() }
    } else {
        Parsed::Miss { at: pos }
    }
}

/// Names in a row, each after optional whitespace: the names, and how many
/// characters they take.
pub open spec fn names_at(s: Text, pos: nat, class: CharClass) -> (Seq<Text>, nat)
    decreases rest(s, pos),
{
    let p = skip_space(s, pos);
    match name_len(s, p, class) {
        Some(n) => {
            let (more, len) = names_at(s, p + n, class);
            (seq![piece(s, p, n)] + more, (p + n + len - pos) as nat)
        },
        None => (Seq::empty(), 0),
    }
}

/// `<Name …>`: one name or more between angle brackets.
#[verifier::opaque]
pub open spec fn generics_at(s: Text, pos: nat) -> Parsed<Seq<Text>> {
    if !has_char(s, pos, '<') {
        Parsed::Miss { at: pos }
    } else {
        let (found, len) = names_at(s, pos + 1, CharClass::Word);
        let e = skip_space(s, pos + 1 + len);
        if found.len() == 0 || !has_char(s, e, '>') {
            Parsed::Miss { at: e }
        } else {
            done(found, pos, e + 1)
        }
    }
}

/// An optional `<Name …>` after optional whitespace: the names, if there are
/// any, and the position after them.
pub open spec fn opt_generics_at(s: Text, pos: nat) -> (Option<Seq<Text>>, nat) {
    let g = skip_space(s, pos);
    match generics_at(s, g) {
        Parsed::Done { value, len } => (Some(value), g + len),
        _ => (None, pos),
    }
}

/// An optional array size after optional whitespace: where its digits start,
/// and how many there are.
pub open spec fn size_at(s: Text, pos: nat) -> (nat, nat) {
    let q = skip_space(s, pos);
    (q, run(s, q, CharClass::Digit))
}

/// A type, after optional whitespace.
#[verifier::opaque]
pub open spec fn type_at(s: Text, pos: nat) -> Parsed<TypeModel>
    decreases rest(s, pos), 4nat,
{
    let p = skip_space(s, pos);
    plain_at(s, p).or(composite_at(s, p)).or(named_type_at(s, p)).after((p - pos) as nat)
}

/// A scalar, an array, a pointer or a tuple.
#[verifier::opaque]
pub open spec fn plain_at(s: Text, pos: nat) -> Parsed<TypeModel>
    decreases rest(s, pos), 2nat,
{
    scalar_at(s, pos).or(array_at(s, pos)).or(pointer_at(s, pos)).or(tuple_at(s, pos))
}

/// A function type, a data type or a struct.
#[verifier::opaque]
pub open spec fn composite_at(s: Text, pos: nat) -> Parsed<TypeModel>
    decreases rest(s, pos), 1nat,
{
    fn_type_at(s, pos).or(data_at(s, pos)).or(struct_at(s, pos))
}

/// An array type, in one of its three forms.
#[verifier::opaque]
pub open spec fn array_at(s: Text, pos: nat) -> Parsed<TypeModel>
    decreases rest(s, pos), 1nat,
{
    bracket_array_at(s, pos).or(generic_array_at(s, pos)).or(long_array_at(s, pos))
}

/// A pointer type, generic or not.
#[verifier::opaque]
pub open spec fn pointer_at(s: Text, pos: nat) -> Parsed<TypeModel>
    decreases rest(s, pos), 1nat,
{
    generic_ptr_at(s, pos).or(ptr_at(s, pos))
}

/// A tuple type, in one of its two forms.
#[verifier::opaque]
pub open spec fn tuple_at(s: Text, pos: nat) -> Parsed<TypeModel>
    decreases rest(s, pos), 1nat,
{
    brace_tuple_at(s, pos).or(long_tuple_at(s, pos))
}

/// Types in a row: the types, and how many characters they take.
#[verifier::opaque]
pub open spec fn types_at(s: Text, pos: nat) -> Parsed<Seq<TypeModel>>
    decreases rest(s, pos), 5nat,
{
    if pos >= s.len() {
        Parsed::Done { value: Seq::empty(), len: 0 }
    } else {
        match type_at(s, pos) {
            Parsed::Done { value, len } => if len == 0 {
                Parsed::Done { value: Seq::empty(), len: 0 }
            } else {
                match types_at(s, pos + len) {
                    Parsed::Done { value: more, len: more_len } => Parsed::Done {
                        value: seq![value] + more,
                        len: len + more_len,
                    },
                    other => other,
                }
            },
            Parsed::Miss { at } => Parsed::Done { value: Seq::empty(), len: 0 },
            Parsed::Fail { kind, at } => Parsed::Fail { kind, at },
        }
    }
}

/// `[T]` and `[T size]`.
#[verifier::opaque]
pub open spec fn bracket_array_at(s: Text, pos: nat) -> Parsed<TypeModel>
    decreases rest(s, pos), 0nat,
{
    if !has_char(s, pos, '[') {
        Parsed::Miss { at: pos }
    } else {
        match type_at(s, pos + 1) {
            Parsed::Done { value, len } => {
                let (q, d) = size_at(s, pos + 1 + len);
                let e = skip_space(s, q + d);
                if !has_char(s, e, ']') {
                    Parsed::Miss { at: e }
                } else if d == 0 {
                    done(TypeModel::ArrayUnsized(Box::new(value)), pos, e + 1)
                } else if decimal(piece(s, q, d)) > usize::MAX {
                    Parsed::Fail { kind: ErrorKind::NumberRange, at: q }
                } else {
                    done(
                        TypeModel::ArraySized(Box::new(value), decimal(piece(s, q, d))),
                        pos,
                        e + 1,
                    )
                }
            },
            other => other.carry(),
        }
    }
}

/// The position after `(` and the keyword `word`, if they stand at `pos`;
/// else how far the two got.
pub open spec fn head_at(s: Text, pos: nat, word: Text) -> Result<nat, nat> {
    if !has_char(s, pos, '(') {
        Err(pos)
    } else {
        let k = skip_space(s, pos + 1);
        if !has_keyword(s, k, word) {
            Err(k)
        } else {
            Ok(k + word.len())
        }
    }
}

/// `(array<Name>)` and `(array<Name> size)`.
#[verifier::opaque]
pub open spec fn generic_array_at(s: Text, pos: nat) -> Parsed<TypeModel> {
    match head_at(s, pos, "array"@) {
        Err(at) => Parsed::Miss { at },
        Ok(a) => {
            let g = skip_space(s, a);
            match generics_at(s, g) {
                Parsed::Done { value, len } => {
                    let (q, d) = size_at(s, g + len);
                    let e = skip_space(s, q + d);
                    if !has_char(s, e, ')') {
                        Parsed::Miss { at: e }
                    } else if value.len() != 1 {
                        Parsed::Fail { kind: ErrorKind::GenericArity, at: g }
                    } else if d == 0 {
                        done(TypeModel::GenericArrayUnsized(value[0]), pos, e + 1)
                    } else if decimal(piece(s, q, d)) > usize::MAX {
                        Parsed::Fail { kind: ErrorKind::NumberRange, at: q }
                    } else {
                        done(
                            TypeModel::GenericArraySized(value[0], decimal(piece(s, q, d))),
                            pos,
                            e + 1,
                        )
                    }
                },
                other => other.carry(),
            }
        },
    }
}

/// `(array T)` and `(array T size)`.
#[verifier::opaque]
pub open spec fn long_array_at(s: Text, pos: nat) -> Parsed<TypeModel>
    decreases rest(s, pos), 0nat,
{
    match head_at(s, pos, "array"@) {
        Err(at) => Parsed::Miss { at },
        Ok(a) => match type_at(s, a) {
            Parsed::Done { value, len } => {
                let (q, d) = size_at(s, a + len);
                let e = skip_space(s, q + d);
                if !has_char(s, e, ')') {
                    Parsed::Miss { at: e }
                } else if d == 0 {
                    done(TypeModel::ArrayUnsized(Box::new(value)), pos, e + 1)
                } else if decimal(piece(s, q, d)) > usize::MAX {
                    Parsed::Fail { kind: ErrorKind::NumberRange, at: q }
                } else {
                    done(
                        TypeModel::ArraySized(Box::new(value), decimal(piece(s, q, d))),
                        pos,
                        e + 1,
                    )
                }
            },
            other => other.carry(),
        },
    }
}

/// `(ptr<Name>)`.
#[verifier::opaque]
pub open spec fn generic_ptr_at(s: Text, pos: nat) -> Parsed<TypeModel> {
    match head_at(s, pos, "ptr"@) {
        Err(at) => Parsed::Miss { at },
        Ok(a) => {
            let g = skip_space(s, a);
            match generics_at(s, g) {
                Parsed::Done { value, len } => {
                    let e = skip_space(s, g + len);
                    if !has_char(s, e, ')') {
                        Parsed::Miss { at: e }
                    } else if value.len() != 1 {
                        Parsed::Fail { kind: ErrorKind::GenericArity, at: g }
                    } else {
                        done(TypeModel::GenericPtr(value[0]), pos, e + 1)
                    }
                },
                other => other.carry(),
            }
        },
    }
}

/// `(ptr T)`.
#[verifier::opaque]
pub open spec fn ptr_at(s: Text, pos: nat) -> Parsed<TypeModel>
    decreases rest(s, pos), 0nat,
{
    match head_at(s, pos, "ptr"@) {
        Err(at) => Parsed::Miss { at },
        Ok(a) => match type_at(s, a) {
            Parsed::Done { value, len } => {
                let e = skip_space(s, a + len);
                if !has_char(s, e, ')') {
                    Parsed::Miss { at: e }
                } else {
                    done(TypeModel::Ptr(Box::new(value)), pos, e + 1)
                }
            },
            other => other.carry(),
        },
    }
}

/// `{T …}`: one type or more between braces.
#[verifier::opaque]
pub open spec fn brace_tuple_at(s: Text, pos: nat) -> Parsed<TypeModel>
    decreases rest(s, pos), 0nat,
{
    if !has_char(s, pos, '{') {
        Parsed::Miss { at: pos }
    } else {
        match types_at(s, pos + 1) {
            Parsed::Done { value, len } => {
                let e = skip_space(s, pos + 1 + len);
                if value.len() == 0 || !has_char(s, e, '}') {
                    Parsed::Miss { at: e }
                } else {
                    done(TypeModel::Tuple(value), pos, e + 1)
                }
            },
            other => other.carry(),
        }
    }
}

/// `(tuple T …)` and `(tuple<Name …> T …)`.
#[verifier::opaque]
pub open spec fn long_tuple_at(s: Text, pos: nat) -> Parsed<TypeModel>
    decreases rest(s, pos), 0nat,
{
    match head_at(s, pos, "tuple"@) {
        Err(at) => Parsed::Miss { at },
        Ok(a) => {
            let (generics, b) = opt_generics_at(s, a);
            match types_at(s, b) {
                Parsed::Done { value, len } => {
                    let e = skip_space(s, b + len);
                    if value.len() == 0 || !has_char(s, e, ')') {
                        Parsed::Miss { at: e }
                    } else {
                        done(
                            match generics {
                                Some(g) => TypeModel::GenericTuple(g, value),
                                None => TypeModel::Tuple(value),
                            },
                            pos,
                            e + 1,
                        )
                    }
                },
                other => other.carry(),
            }
        },
    }
}

/// The type of a function with the given generic parameters, parameter
/// types, variadic marker and return type.
pub open spec fn fn_type(
    generics: Option<Seq<Text>>,
    params: Seq<TypeModel>,
    variadic: bool,
    ret: TypeModel,
) -> TypeModel {
    match generics {
        Some(g) => if variadic {
            TypeModel::GenericFnWithVarArgs(g, params, Box::new(ret))
        } else {
            TypeModel::GenericFn(g, params, Box::new(ret))
        },
        None => if variadic {
            TypeModel::FnWithVarArgs(params, Box::new(ret))
        } else {
            TypeModel::Fn(params, Box::new(ret))
        },
    }
}

/// `fn [T …] R`, with `<Name …>` after `fn` and `...` before `]` as options.
#[verifier::opaque]
pub open spec fn fn_type_at(s: Text, pos: nat) -> Parsed<TypeModel>
    decreases rest(s, pos), 0nat,
{
    if !has_keyword(s, pos, "fn"@) {
        Parsed::Miss { at: pos }
    } else {
        let (generics, b) = opt_generics_at(s, pos + "fn"@.len());
        let o = skip_space(s, b);
        if !has_char(s, o, '[') {
            Parsed::Miss { at: o }
        } else {
            match types_at(s, o + 1) {
                Parsed::Done { value: params, len } => {
                    let d = skip_space(s, o + 1 + len);
                    let variadic = has_text(s, d, "..."@);
                    let c = if variadic {
                        skip_space(s, d + "..."@.len())
                    } else {
                        d
                    };
                    if !has_char(s, c, ']') {
                        Parsed::Miss { at: c }
                    } else {
                        match type_at(s, c + 1) {
                            Parsed::Done { value: ret, len: ret_len } => done(
                                fn_type(generics, params, variadic, ret),
                                pos,
                                c + 1 + ret_len,
                            ),
                            other => other,
                        }
                    }
                },
                other => other.carry(),
            }
        }
    }
}

/// `:name`: a colon and, right after it, a name.
pub open spec fn tag_at(s: Text, pos: nat) -> Option<nat> {
    if has_char(s, pos, ':') {
        name_len(s, pos + 1, CharClass::Ident)
    } else {
        None
    }
}

/// `[:Tag T …]`: a variant of a data type.
#[verifier::opaque]
pub open spec fn variant_at(s: Text, pos: nat) -> Parsed<(Text, Seq<TypeModel>)>
    decreases rest(s, pos), 0nat,
{
    if !has_char(s, pos, '[') {
        Parsed::Miss { at: pos }
    } else {
        let t = skip_space(s, pos + 1);
        match tag_at(s, t) {
            None => Parsed::Miss { at: t },
            Some(n) => match types_at(s, t + 1 + n) {
                Parsed::Done { value, len } => {
                    let e = skip_space(s, t + 1 + n + len);
                    if !has_char(s, e, ']') {
                        Parsed::Miss { at: e }
                    } else {
                        done((piece(s, t + 1, n), value), pos, e + 1)
                    }
                },
                other => other.carry(),
            },
        }
    }
}

/// Variants in a row, each after optional whitespace.
#[verifier::opaque]
pub open spec fn variants_at(s: Text, pos: nat) -> Parsed<Seq<(Text, Seq<TypeModel>)>>
    decreases rest(s, pos), 4nat,
{
    let p = skip_space(s, pos);
    match variant_at(s, p) {
        Parsed::Done { value, len } => if len == 0 || p >= s.len() {
            Parsed::Done { value: Seq::empty(), len: 0 }
        } else {
            match variants_at(s, p + len) {
                Parsed::Done { value: more, len: more_len } => done(
                    seq![value] + more,
                    pos,
                    p + len + more_len,
                ),
                other => other,
            }
        },
        Parsed::Miss { at } => Parsed::Done { value: Seq::empty(), len: 0 },
        Parsed::Fail { kind, at } => Parsed::Fail { kind, at },
    }
}

/// `(data [:Tag T …] …)` and `(data<Name …> [:Tag T …] …)`: one variant or
/// more, no two under one tag.
#[verifier::opaque]
pub open spec fn data_at(s: Text, pos: nat) -> Parsed<TypeModel>
    decreases rest(s, pos), 0nat,
{
    match head_at(s, pos, "data"@) {
        Err(at) => Parsed::Miss { at },
        Ok(a) => {
            let (generics, b) = opt_generics_at(s, a);
            match variants_at(s, b) {
                Parsed::Done { value, len } => {
                    let e = skip_space(s, b + len);
                    if value.len() == 0 || !has_char(s, e, ')') {
                        Parsed::Miss { at: e }
                    } else if !firsts(value).no_duplicates() {
                        Parsed::Fail { kind: ErrorKind::DuplicateName, at: pos }
                    } else {
                        done(
                            match generics {
                                Some(g) => TypeModel::GenericData(g, value),
                                None => TypeModel::Data(value),
                            },
                            pos,
                            e + 1,
                        )
                    }
                },
                other => other.carry(),
            }
        },
    }
}

/// `(:name T)`: a field of a struct, or a parameter of a function.
#[verifier::opaque]
pub open spec fn field_at(s: Text, pos: nat) -> Parsed<(Text, TypeModel)>
    decreases rest(s, pos), 0nat,
{
    if !has_char(s, pos, '(') {
        Parsed::Miss { at: pos }
    } else {
        let t = skip_space(s, pos + 1);
        match tag_at(s, t) {
            None => Parsed::Miss { at: t },
            Some(n) => match type_at(s, t + 1 + n) {
                Parsed::Done { value, len } => {
                    let e = skip_space(s, t + 1 + n + len);
                    if !has_char(s, e, ')') {
                        Parsed::Miss { at: e }
                    } else {
                        done((piece(s, t + 1, n), value), pos, e + 1)
                    }
                },
                other => other.carry(),
            },
        }
    }
}

/// Fields in a row, each after optional whitespace.
#[verifier::opaque]
pub open spec fn fields_at(s: Text, pos: nat) -> Parsed<Seq<(Text, TypeModel)>>
    decreases rest(s, pos), 4nat,
{
    let p = skip_space(s, pos);
    match field_at(s, p) {
        Parsed::Done { value, len } => if len == 0 || p >= s.len() {
            Parsed::Done { value: Seq::empty(), len: 0 }
        } else {
            match fields_at(s, p + len) {
                Parsed::Done { value: more, len: more_len } => done(
                    seq![value] + more,
                    pos,
                    p + len + more_len,
                ),
                other => other,
            }
        },
        Parsed::Miss { at } => Parsed::Done { value: Seq::empty(), len: 0 },
        Parsed::Fail { kind, at } => Parsed::Fail { kind, at },
    }
}

/// `(struct (:name T) …)` and `(struct<Name …> (:name T) …)`: one field or
/// more, no two under one name.
#[verifier::opaque]
pub open spec fn struct_at(s: Text, pos: nat) -> Parsed<TypeModel>
    decreases rest(s, pos), 0nat,
{
    match head_at(s, pos, "struct"@) {
        Err(at) => Parsed::Miss { at },
        Ok(a) => {
            let (generics, b) = opt_generics_at(s, a);
            match fields_at(s, b) {
                Parsed::Done { value, len } => {
                    let e = skip_space(s, b + len);
                    if value.len() == 0 || !has_char(s, e, ')') {
                        Parsed::Miss { at: e }
                    } else if !firsts(value).no_duplicates() {
                        Parsed::Fail { kind: ErrorKind::DuplicateName, at: pos }
                    } else {
                        done(
                            match generics {
                                Some(g) => TypeModel::GenericStruct(g, value),
                                None => TypeModel::Struct(value),
                            },
                            pos,
                            e + 1,
                        )
                    }
                },
                other => other.carry(),
            }
        },
    }
}

/// A name, which refers to an alias or to a generic parameter.
#[verifier::opaque]
pub open spec fn named_type_at(s: Text, pos: nat) -> Parsed<TypeModel> {
    match name_len(s, pos, CharClass::Ident) {
        Some(n) => Parsed::Done { value: TypeModel::IdentType(piece(s, pos, n)), len: n },
        None => Parsed::Miss { at: pos },
    }
}

} // verus!
