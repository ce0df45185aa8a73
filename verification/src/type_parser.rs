//! The parser of types: one function for each production of the type
//! grammar, each returning what the grammar says.

use vstd::prelude::*;
use crate::ast::VarType;
use crate::model::{
    field_models, lemma_fields_push, lemma_names_push, lemma_row, lemma_types_push,
    lemma_variants_push, names, opt_names, type_models, TypeModel, variant_models,
};
use crate::outcome::{ErrorKind, Parsed, Step};
use crate::text::{
    at_char, at_keyword, at_text, CharClass, decimal, in_class, is_digit, name_end, number, run,
    scan, skip, slice_text,
};
use crate::type_grammar::{
    array_at, brace_tuple_at, bracket_array_at, composite_at, data_at, field_at, fields_at, firsts,
    fn_type_at, generic_array_at, generic_ptr_at, generics_at, head_at, long_array_at,
    long_tuple_at, named_type_at, names_at, opt_generics_at, piece, plain_at, pointer_at, ptr_at,
    scalar_at, size_at, struct_at, tag_at, tuple_at, type_at, types_at, variant_at, variants_at,
};

verus! {

/// Reads one of the scalar keywords.
fn scalar(s: &[char], pos: usize) -> (r: Step<VarType>)
    requires
        pos <= s.len(),
    ensures
        r.matches(pos, s.len(), scalar_at(s@, pos as nat)),
{
    reveal(VarType::tree);
    reveal(scalar_at);
    if let Some(next) = at_keyword(s, pos, "i8") {
        Step::Done { value: VarType::Int8, next }
    } else if let Some(next) = at_keyword(s, pos, "i16") {
        Step::Done { value: VarType::Int16, next }
    } else if let Some(next) = at_keyword(s, pos, "i32") {
        Step::Done { value: VarType::Int32, next }
    } else if let Some(next) = at_keyword(s, pos, "i64") {
        Step::Done { value: VarType::Int64, next }
    } else if let Some(next) = at_keyword(s, pos, "i128") {
        Step::Done { value: VarType::Int128, next }
    } else if let Some(next) = at_keyword(s, pos, "u8") {
        Step::Done { value: VarType::UInt8, next }
    } else if let Some(next) = at_keyword(s, pos, "u16") {
        Step::Done { value: VarType::UInt16, next }
    } else if let Some(next) = at_keyword(s, pos, "u32") {
        Step::Done { value: VarType::UInt32, next }
    } else if let Some(next) = at_keyword(s, pos, "u64") {
        Step::Done { value: VarType::UInt64, next }
    } else if let Some(next) = at_keyword(s, pos, "u128") {
        Step::Done { value: VarType::UInt128, next }
    } else if let Some(next) = at_keyword(s, pos, "f16") {
        Step::Done { value: VarType::Float16, next }
    } else if let Some(next) = at_keyword(s, pos, "f32") {
        Step::Done { value: VarType::Float32, next }
    } else if let Some(next) = at_keyword(s, pos, "f64") {
        Step::Done { value: VarType::Float64, next }
    } else if let Some(next) = at_keyword(s, pos, "f128") {
        Step::Done { value: VarType::Float128, next }
    } else if let Some(next) = at_keyword(s, pos, "bool") {
        Step::Done { value: VarType::Bool, next }
    } else if let Some(next) = at_keyword(s, pos, "void") {
        Step::Done { value: VarType::Void, next }
    } else {
        Step::Miss { at: pos }
    }
}

/// Reads names in a row: the names, and the position after the last.
pub(crate) fn read_names(s: &[char], pos: usize, class: CharClass) -> (r: (Vec<String>, usize))
    requires
        pos <= s.len(),
    ensures
        names(r.0) == names_at(s@, pos as nat, class).0,
        r.1 == pos + names_at(s@, pos as nat, class).1,
        r.1 <= s.len(),
{
    let mut out: Vec<String> = Vec::new();
    let mut cur: usize = pos;
    loop
        invariant
            pos <= cur <= s.len(),
            names_at(s@, pos as nat, class).0 == names(out) + names_at(s@, cur as nat, class).0,
            pos + names_at(s@, pos as nat, class).1 == cur + names_at(s@, cur as nat, class).1,
        decreases s.len() - cur,
    {
        let p = skip(s, cur);
        match name_end(s, p, class) {
            Some(end) => {
                let ghost before = out;
                let name = slice_text(s, p, end);
                out.push(name);
                proof {
                    lemma_names_push(before, out, name);
                    lemma_row(names(before), name@, names_at(s@, end as nat, class).0);
                }
                cur = end;
            },
            None => {
                proof {
                    lemma_row(names(out), Seq::empty(), Seq::empty());
                }
                return (out, cur);
            },
        }
    }
}

/// Reads `<Name …>`.
pub(crate) fn generics(s: &[char], pos: usize) -> (r: Step<Vec<String>>)
    requires
        pos <= s.len(),
    ensures
        r.agrees(pos, s.len(), |v: Vec<String>| names(v), generics_at(s@, pos as nat)),
{
    reveal(generics_at);
    if !at_char(s, pos, '<') {
        return Step::Miss { at: pos };
    }
    let (found, end) = read_names(s, pos + 1, CharClass::Word);
    let e = skip(s, end);
    if found.len() == 0 || !at_char(s, e, '>') {
        Step::Miss { at: e }
    } else {
        Step::Done { value: found, next: e + 1 }
    }
}

/// Reads an optional `<Name …>` after optional whitespace.
pub(crate) fn opt_generics(s: &[char], pos: usize) -> (r: (Option<Vec<String>>, usize))
    requires
        pos <= s.len(),
    ensures
        opt_names(r.0) == opt_generics_at(s@, pos as nat).0,
        r.1 == opt_generics_at(s@, pos as nat).1,
        pos <= r.1 <= s.len(),
{
    let g = skip(s, pos);
    match generics(s, g) {
        Step::Done { value, next } => (Some(value), next),
        _ => (None, pos),
    }
}

/// Reads `(` and the keyword `word`.
pub(crate) fn head(s: &[char], pos: usize, word: &str) -> (r: Result<usize, usize>)
    requires
        pos <= s.len(),
    ensures
        r matches Ok(a) ==> head_at(s@, pos as nat, word@) == Ok::<nat, nat>(a as nat) && pos < a
            <= s.len(),
        r matches Err(at) ==> head_at(s@, pos as nat, word@) == Err::<nat, nat>(at as nat),
{
    if !at_char(s, pos, '(') {
        return Err(pos);
    }
    let k = skip(s, pos + 1);
    match at_keyword(s, k, word) {
        Some(a) => Ok(a),
        None => Err(k),
    }
}

/// The array size that the digits from `q` up to `end` write, if it fits.
fn sized(s: &[char], q: usize, end: usize) -> (r: Option<usize>)
    requires
        q < end <= s.len(),
        end == q + run(s@, q as nat, CharClass::Digit),
        forall|i: int| q <= i < end ==> is_digit(#[trigger] s@[i]),
    ensures
        r == if decimal(piece(s@, q as nat, (end - q) as nat)) <= usize::MAX {
            Some(decimal(piece(s@, q as nat, (end - q) as nat)) as usize)
        } else {
            None
        },
{
    match number(s, q, end, usize::MAX as u64) {
        Some(n) => Some(n as usize),
        None => None,
    }
}

/// Reads an optional array size after optional whitespace: where its digits
/// start and where they end.
fn size(s: &[char], pos: usize) -> (r: (usize, usize))
    requires
        pos <= s.len(),
    ensures
        r.0 == size_at(s@, pos as nat).0,
        r.1 == r.0 + size_at(s@, pos as nat).1,
        pos <= r.0 <= r.1 <= s.len(),
        forall|i: int| r.0 <= i < r.1 ==> is_digit(#[trigger] s@[i]),
{
    reveal(in_class);
    let q = skip(s, pos);
    let end = scan(s, q, CharClass::Digit);
    (q, end)
}

/// Tells whether no two entries of `v` share a name.
fn distinct<T>(v: &Vec<(String, T)>) -> (r: bool)
    ensures
        r == Seq::new(v.len() as nat, |i: int| v[i].0@).no_duplicates(),
{
    let ghost keys = Seq::new(v.len() as nat, |i: int| v[i].0@);
    let mut i: usize = 0;
    while i < v.len()
        invariant
            i <= v.len(),
            keys == Seq::new(v.len() as nat, |i: int| v[i].0@),
            forall|a: int, b: int| 0 <= a < i && 0 <= b < a ==> keys[a] != keys[b],
        decreases v.len() - i,
    {
        let mut j: usize = 0;
        while j < i
            invariant
                j <= i < v.len(),
                keys == Seq::new(v.len() as nat, |i: int| v[i].0@),
                forall|b: int| 0 <= b < j ==> keys[i as int] != keys[b],
            decreases i - j,
        {
            if v[i].0 == v[j].0 {
                assert(keys[i as int] == keys[j as int]);
                return false;
            }
            j += 1;
        }
        i += 1;
    }
    assert forall|a: int, b: int|
        0 <= a < keys.len() && 0 <= b < keys.len() && a != b implies keys[a] != keys[b] by {
        if b < a {
        } else {
            assert(keys[b] != keys[a]);
        }
    }
    true
}

/// Reads a type, after optional whitespace.
#[verifier::spinoff_prover]
pub(crate) fn parse_type(s: &[char], pos: usize) -> (r: Step<VarType>)
    requires
        pos <= s.len(),
    ensures
        r.matches(pos, s.len(), type_at(s@, pos as nat)),
    decreases s.len() - pos, 4nat,
{
    reveal(type_at);
    reveal(plain_at);
    reveal(composite_at);
    let p = skip(s, pos);
    let r = plain(s, p);
    let far = match r {
        Step::Miss { at } => at,
        _ => { return r; },
    };
    let r = composite(s, p);
    let far = match r {
        Step::Miss { at } => if at > far { at } else { far },
        _ => { return r; },
    };
    let r = named_type(s, p);
    match r {
        Step::Miss { at } => Step::Miss { at: if at > far { at } else { far } },
        _ => r,
    }
}

#[verifier::spinoff_prover]
fn plain(s: &[char], pos: usize) -> (r: Step<VarType>)
    requires
        pos <= s.len(),
    ensures
        r.matches(pos, s.len(), plain_at(s@, pos as nat)),
    decreases s.len() - pos, 2nat,
{
    reveal(plain_at);
    reveal(array_at);
    reveal(pointer_at);
    reveal(tuple_at);
    let r = scalar(s, pos);
    let far = match r {
        Step::Miss { at } => at,
        _ => { return r; },
    };
    let r = array(s, pos);
    let far = match r {
        Step::Miss { at } => if at > far { at } else { far },
        _ => { return r; },
    };
    let r = pointer(s, pos);
    let far = match r {
        Step::Miss { at } => if at > far { at } else { far },
        _ => { return r; },
    };
    let r = tuple(s, pos);
    match r {
        Step::Miss { at } => Step::Miss { at: if at > far { at } else { far } },
        _ => r,
    }
}

#[verifier::spinoff_prover]
fn composite(s: &[char], pos: usize) -> (r: Step<VarType>)
    requires
        pos <= s.len(),
    ensures
        r.matches(pos, s.len(), composite_at(s@, pos as nat)),
    decreases s.len() - pos, 1nat,
{
    reveal(composite_at);
    reveal(fn_type_at);
    reveal(data_at);
    reveal(struct_at);
    let r = fn_type(s, pos);
    let far = match r {
        Step::Miss { at } => at,
        _ => { return r; },
    };
    let r = data(s, pos);
    let far = match r {
        Step::Miss { at } => if at > far { at } else { far },
        _ => { return r; },
    };
    let r = structure(s, pos);
    match r {
        Step::Miss { at } => Step::Miss { at: if at > far { at } else { far } },
        _ => r,
    }
}

#[verifier::spinoff_prover]
fn array(s: &[char], pos: usize) -> (r: Step<VarType>)
    requires
        pos <= s.len(),
    ensures
        r.matches(pos, s.len(), array_at(s@, pos as nat)),
    decreases s.len() - pos, 1nat,
{
    reveal(array_at);
    reveal(bracket_array_at);
    reveal(long_array_at);
    let r = bracket_array(s, pos);
    let far = match r {
        Step::Miss { at } => at,
        _ => { return r; },
    };
    let r = generic_array(s, pos);
    let far = match r {
        Step::Miss { at } => if at > far { at } else { far },
        _ => { return r; },
    };
    let r = long_array(s, pos);
    match r {
        Step::Miss { at } => Step::Miss { at: if at > far { at } else { far } },
        _ => r,
    }
}

#[verifier::spinoff_prover]
fn pointer(s: &[char], pos: usize) -> (r: Step<VarType>)
    requires
        pos <= s.len(),
    ensures
        r.matches(pos, s.len(), pointer_at(s@, pos as nat)),
    decreases s.len() - pos, 1nat,
{
    reveal(pointer_at);
    reveal(ptr_at);
    let r = generic_ptr(s, pos);
    let far = match r {
        Step::Miss { at } => at,
        _ => { return r; },
    };
    let r = ptr(s, pos);
    match r {
        Step::Miss { at } => Step::Miss { at: if at > far { at } else { far } },
        _ => r,
    }
}

#[verifier::spinoff_prover]
fn tuple(s: &[char], pos: usize) -> (r: Step<VarType>)
    requires
        pos <= s.len(),
    ensures
        r.matches(pos, s.len(), tuple_at(s@, pos as nat)),
    decreases s.len() - pos, 1nat,
{
    reveal(tuple_at);
    reveal(brace_tuple_at);
    reveal(long_tuple_at);
    let r = brace_tuple(s, pos);
    let far = match r {
        Step::Miss { at } => at,
        _ => { return r; },
    };
    let r = long_tuple(s, pos);
    match r {
        Step::Miss { at } => Step::Miss { at: if at > far { at } else { far } },
        _ => r,
    }
}

/// Reads types in a row.
#[verifier::spinoff_prover]
pub(crate) fn parse_types(s: &[char], pos: usize) -> (r: Step<Vec<VarType>>)
    requires
        pos <= s.len(),
    ensures
        r.agrees(pos, s.len(), |v: Vec<VarType>| type_models(v), types_at(s@, pos as nat)),
    decreases s.len() - pos, 5nat,
{
    let mut out: Vec<VarType> = Vec::new();
    let mut cur: usize = pos;
    loop
        invariant
            pos <= cur <= s.len(),
            types_at(s@, pos as nat) == types_at(s@, cur as nat).behind(
                type_models(out),
                (cur - pos) as nat,
            ),
        decreases s.len() - cur,
    {
        reveal(types_at);
        reveal(type_at);
        proof {
            lemma_row(type_models(out), TypeModel::Void, Seq::empty());
        }
        if cur >= s.len() {
            return Step::Done { value: out, next: cur };
        }
        match parse_type(s, cur) {
            Step::Done { value, next } => {
                if next == cur {
                    return Step::Done { value: out, next: cur };
                }
                let ghost before = out;
                out.push(value);
                proof {
                    lemma_types_push(before, out, value);
                    if let Parsed::Done { value: more, len } = types_at(s@, next as nat) {
                        lemma_row(type_models(before), value@, more);
                    }
                }
                cur = next;
            },
            Step::Miss { at } => {
                return Step::Done { value: out, next: cur };
            },
            Step::Fail { kind, at } => {
                return Step::Fail { kind, at };
            },
        }
    }
}

#[verifier::spinoff_prover]
fn bracket_array(s: &[char], pos: usize) -> (r: Step<VarType>)
    requires
        pos <= s.len(),
    ensures
        r.matches(pos, s.len(), bracket_array_at(s@, pos as nat)),
    decreases s.len() - pos, 0nat,
{
    reveal(VarType::tree);
    reveal(bracket_array_at);
    reveal(type_at);
    if !at_char(s, pos, '[') {
        return Step::Miss { at: pos };
    }
    match parse_type(s, pos + 1) {
        Step::Done { value, next } => {
            let (q, digits_end) = size(s, next);
            let e = skip(s, digits_end);
            if !at_char(s, e, ']') {
                Step::Miss { at: e }
            } else if digits_end == q {
                Step::Done { value: VarType::ArrayUnsized(Box::new(value)), next: e + 1 }
            } else {
                match sized(s, q, digits_end) {
                    Some(n) => Step::Done {
                        value: VarType::ArraySized(Box::new(value), n),
                        next: e + 1,
                    },
                    None => Step::Fail { kind: ErrorKind::NumberRange, at: q },
                }
            }
        },
        Step::Miss { at } => Step::Miss { at },
        Step::Fail { kind, at } => Step::Fail { kind, at },
    }
}

fn generic_array(s: &[char], pos: usize) -> (r: Step<VarType>)
    requires
        pos <= s.len(),
    ensures
        r.matches(pos, s.len(), generic_array_at(s@, pos as nat)),
{
    reveal(VarType::tree);
    reveal(generic_array_at);
    let a = match head(s, pos, "array") {
        Ok(a) => a,
        Err(at) => { return Step::Miss { at }; },
    };
    let g = skip(s, a);
    match generics(s, g) {
        Step::Done { value, next } => {
            let (q, digits_end) = size(s, next);
            let e = skip(s, digits_end);
            if !at_char(s, e, ')') {
                Step::Miss { at: e }
            } else if value.len() != 1 {
                Step::Fail { kind: ErrorKind::GenericArity, at: g }
            } else {
                let name = value[0].clone();
                if digits_end == q {
                    Step::Done { value: VarType::GenericArrayUnsized(name), next: e + 1 }
                } else {
                    match sized(s, q, digits_end) {
                        Some(n) => Step::Done {
                            value: VarType::GenericArraySized(name, n),
                            next: e + 1,
                        },
                        None => Step::Fail { kind: ErrorKind::NumberRange, at: q },
                    }
                }
            }
        },
        Step::Miss { at } => Step::Miss { at },
        Step::Fail { kind, at } => Step::Fail { kind, at },
    }
}

#[verifier::spinoff_prover]
fn long_array(s: &[char], pos: usize) -> (r: Step<VarType>)
    requires
        pos <= s.len(),
    ensures
        r.matches(pos, s.len(), long_array_at(s@, pos as nat)),
    decreases s.len() - pos, 0nat,
{
    reveal(VarType::tree);
    reveal(long_array_at);
    reveal(type_at);
    let a = match head(s, pos, "array") {
        Ok(a) => a,
        Err(at) => { return Step::Miss { at }; },
    };
    match parse_type(s, a) {
        Step::Done { value, next } => {
            let (q, digits_end) = size(s, next);
            let e = skip(s, digits_end);
            if !at_char(s, e, ')') {
                Step::Miss { at: e }
            } else if digits_end == q {
                Step::Done { value: VarType::ArrayUnsized(Box::new(value)), next: e + 1 }
            } else {
                match sized(s, q, digits_end) {
                    Some(n) => Step::Done {
                        value: VarType::ArraySized(Box::new(value), n),
                        next: e + 1,
                    },
                    None => Step::Fail { kind: ErrorKind::NumberRange, at: q },
                }
            }
        },
        Step::Miss { at } => Step::Miss { at },
        Step::Fail { kind, at } => Step::Fail { kind, at },
    }
}

fn generic_ptr(s: &[char], pos: usize) -> (r: Step<VarType>)
    requires
        pos <= s.len(),
    ensures
        r.matches(pos, s.len(), generic_ptr_at(s@, pos as nat)),
{
    reveal(VarType::tree);
    reveal(generic_ptr_at);
    let a = match head(s, pos, "ptr") {
        Ok(a) => a,
        Err(at) => { return Step::Miss { at }; },
    };
    let g = skip(s, a);
    match generics(s, g) {
        Step::Done { value, next } => {
            let e = skip(s, next);
            if !at_char(s, e, ')') {
                Step::Miss { at: e }
            } else if value.len() != 1 {
                Step::Fail { kind: ErrorKind::GenericArity, at: g }
            } else {
                Step::Done { value: VarType::GenericPtr(value[0].clone()), next: e + 1 }
            }
        },
        Step::Miss { at } => Step::Miss { at },
        Step::Fail { kind, at } => Step::Fail { kind, at },
    }
}

#[verifier::spinoff_prover]
fn ptr(s: &[char], pos: usize) -> (r: Step<VarType>)
    requires
        pos <= s.len(),
    ensures
        r.matches(pos, s.len(), ptr_at(s@, pos as nat)),
    decreases s.len() - pos, 0nat,
{
    reveal(VarType::tree);
    reveal(ptr_at);
    reveal(type_at);
    let a = match head(s, pos, "ptr") {
        Ok(a) => a,
        Err(at) => { return Step::Miss { at }; },
    };
    match parse_type(s, a) {
        Step::Done { value, next } => {
            let e = skip(s, next);
            if !at_char(s, e, ')') {
                Step::Miss { at: e }
            } else {
                Step::Done { value: VarType::Ptr(Box::new(value)), next: e + 1 }
            }
        },
        Step::Miss { at } => Step::Miss { at },
        Step::Fail { kind, at } => Step::Fail { kind, at },
    }
}

#[verifier::spinoff_prover]
fn brace_tuple(s: &[char], pos: usize) -> (r: Step<VarType>)
    requires
        pos <= s.len(),
    ensures
        r.matches(pos, s.len(), brace_tuple_at(s@, pos as nat)),
    decreases s.len() - pos, 0nat,
{
    reveal(VarType::tree);
    reveal(brace_tuple_at);
    reveal(types_at);
    if !at_char(s, pos, '{') {
        return Step::Miss { at: pos };
    }
    match parse_types(s, pos + 1) {
        Step::Done { value, next } => {
            let e = skip(s, next);
            if value.len() == 0 || !at_char(s, e, '}') {
                Step::Miss { at: e }
            } else {
                Step::Done { value: VarType::Tuple(value), next: e + 1 }
            }
        },
        Step::Miss { at } => Step::Miss { at },
        Step::Fail { kind, at } => Step::Fail { kind, at },
    }
}

#[verifier::spinoff_prover]
fn long_tuple(s: &[char], pos: usize) -> (r: Step<VarType>)
    requires
        pos <= s.len(),
    ensures
        r.matches(pos, s.len(), long_tuple_at(s@, pos as nat)),
    decreases s.len() - pos, 0nat,
{
    reveal(VarType::tree);
    reveal(long_tuple_at);
    reveal(types_at);
    let a = match head(s, pos, "tuple") {
        Ok(a) => a,
        Err(at) => { return Step::Miss { at }; },
    };
    let (generics, b) = opt_generics(s, a);
    match parse_types(s, b) {
        Step::Done { value, next } => {
            let e = skip(s, next);
            if value.len() == 0 || !at_char(s, e, ')') {
                Step::Miss { at: e }
            } else {
                let tuple = match generics {
                    Some(g) => VarType::GenericTuple(g, value),
                    None => VarType::Tuple(value),
                };
                Step::Done { value: tuple, next: e + 1 }
            }
        },
        Step::Miss { at } => Step::Miss { at },
        Step::Fail { kind, at } => Step::Fail { kind, at },
    }
}

#[verifier::spinoff_prover]
fn fn_type(s: &[char], pos: usize) -> (r: Step<VarType>)
    requires
        pos <= s.len(),
    ensures
        r.matches(pos, s.len(), fn_type_at(s@, pos as nat)),
    decreases s.len() - pos, 0nat,
{
    reveal(VarType::tree);
    reveal(fn_type_at);
    reveal(types_at);
    reveal(type_at);
    let a = match at_keyword(s, pos, "fn") {
        Some(a) => a,
        None => { return Step::Miss { at: pos }; },
    };
    let (generics, b) = opt_generics(s, a);
    let o = skip(s, b);
    if !at_char(s, o, '[') {
        return Step::Miss { at: o };
    }
    match parse_types(s, o + 1) {
        Step::Done { value: params, next } => {
            let d = skip(s, next);
            let variadic = at_text(s, d, "...");
            let c = if variadic {
                skip(s, d + "...".unicode_len())
            } else {
                d
            };
            if !at_char(s, c, ']') {
                return Step::Miss { at: c };
            }
            match parse_type(s, c + 1) {
                Step::Done { value: ret, next } => {
                    let ret = Box::new(ret);
                    let value = match generics {
                        Some(g) => if variadic {
                            VarType::GenericFnWithVarArgs(g, params, ret)
                        } else {
                            VarType::GenericFn(g, params, ret)
                        },
                        None => if variadic {
                            VarType::FnWithVarArgs(params, ret)
                        } else {
                            VarType::Fn(params, ret)
                        },
                    };
                    Step::Done { value, next }
                },
                Step::Miss { at } => Step::Miss { at },
                Step::Fail { kind, at } => Step::Fail { kind, at },
            }
        },
        Step::Miss { at } => Step::Miss { at },
        Step::Fail { kind, at } => Step::Fail { kind, at },
    }
}

/// Reads `:name`: the position after the name.
pub(crate) fn tag(s: &[char], pos: usize) -> (r: Option<usize>)
    requires
        pos <= s.len(),
    ensures
        r matches Some(end) ==> tag_at(s@, pos as nat) == Some((end - pos - 1) as nat) && pos + 1
            < end <= s.len(),
        r is None ==> tag_at(s@, pos as nat) is None,
{
    if at_char(s, pos, ':') {
        name_end(s, pos + 1, CharClass::Ident)
    } else {
        None
    }
}

#[verifier::spinoff_prover]
fn variant(s: &[char], pos: usize) -> (r: Step<(String, Vec<VarType>)>)
    requires
        pos <= s.len(),
    ensures
        r.agrees(
            pos,
            s.len(),
            |v: (String, Vec<VarType>)| (v.0@, type_models(v.1)),
            variant_at(s@, pos as nat),
        ),
    decreases s.len() - pos, 0nat,
{
    reveal(variant_at);
    reveal(types_at);
    if !at_char(s, pos, '[') {
        return Step::Miss { at: pos };
    }
    let t = skip(s, pos + 1);
    let name_stop = match tag(s, t) {
        Some(end) => end,
        None => { return Step::Miss { at: t }; },
    };
    match parse_types(s, name_stop) {
        Step::Done { value, next } => {
            let e = skip(s, next);
            if !at_char(s, e, ']') {
                Step::Miss { at: e }
            } else {
                Step::Done { value: (slice_text(s, t + 1, name_stop), value), next: e + 1 }
            }
        },
        Step::Miss { at } => Step::Miss { at },
        Step::Fail { kind, at } => Step::Fail { kind, at },
    }
}

#[verifier::spinoff_prover]
fn variants(s: &[char], pos: usize) -> (r: Step<Vec<(String, Vec<VarType>)>>)
    requires
        pos <= s.len(),
    ensures
        r.agrees(
            pos,
            s.len(),
            |v: Vec<(String, Vec<VarType>)>| variant_models(v),
            variants_at(s@, pos as nat),
        ),
    decreases s.len() - pos, 4nat,
{
    let mut out: Vec<(String, Vec<VarType>)> = Vec::new();
    let mut cur: usize = pos;
    loop
        invariant
            pos <= cur <= s.len(),
            variants_at(s@, pos as nat) == variants_at(s@, cur as nat).behind(
                variant_models(out),
                (cur - pos) as nat,
            ),
        decreases s.len() - cur,
    {
        reveal(variants_at);
        reveal(variant_at);
        proof {
            lemma_row(variant_models(out), (Seq::empty(), Seq::empty()), Seq::empty());
        }
        let p = skip(s, cur);
        match variant(s, p) {
            Step::Done { value, next } => {
                if next == p || p >= s.len() {
                    return Step::Done { value: out, next: cur };
                }
                let ghost before = out;
                out.push(value);
                proof {
                    lemma_variants_push(before, out, value);
                    if let Parsed::Done { value: more, len } = variants_at(s@, next as nat) {
                        lemma_row(variant_models(before), (value.0@, type_models(value.1)), more);
                    }
                }
                cur = next;
            },
            Step::Miss { at } => {
                return Step::Done { value: out, next: cur };
            },
            Step::Fail { kind, at } => {
                return Step::Fail { kind, at };
            },
        }
    }
}

#[verifier::spinoff_prover]
fn data(s: &[char], pos: usize) -> (r: Step<VarType>)
    requires
        pos <= s.len(),
    ensures
        r.matches(pos, s.len(), data_at(s@, pos as nat)),
    decreases s.len() - pos, 0nat,
{
    reveal(VarType::tree);
    reveal(data_at);
    reveal(variants_at);
    let a = match head(s, pos, "data") {
        Ok(a) => a,
        Err(at) => { return Step::Miss { at }; },
    };
    let (generics, b) = opt_generics(s, a);
    match variants(s, b) {
        Step::Done { value, next } => {
            let e = skip(s, next);
            assert(firsts(variant_models(value)) =~= Seq::new(
                value.len() as nat,
                |i: int| value[i].0@,
            ));
            if value.len() == 0 || !at_char(s, e, ')') {
                Step::Miss { at: e }
            } else if !distinct(&value) {
                Step::Fail { kind: ErrorKind::DuplicateName, at: pos }
            } else {
                let data = match generics {
                    Some(g) => VarType::GenericData(g, value),
                    None => VarType::Data(value),
                };
                Step::Done { value: data, next: e + 1 }
            }
        },
        Step::Miss { at } => Step::Miss { at },
        Step::Fail { kind, at } => Step::Fail { kind, at },
    }
}

/// Reads `(:name T)`.
#[verifier::spinoff_prover]
pub(crate) fn field(s: &[char], pos: usize) -> (r: Step<(String, VarType)>)
    requires
        pos <= s.len(),
    ensures
        r.agrees(pos, s.len(), |v: (String, VarType)| (v.0@, v.1@), field_at(s@, pos as nat)),
    decreases s.len() - pos, 0nat,
{
    reveal(field_at);
    reveal(type_at);
    if !at_char(s, pos, '(') {
        return Step::Miss { at: pos };
    }
    let t = skip(s, pos + 1);
    let name_stop = match tag(s, t) {
        Some(end) => end,
        None => { return Step::Miss { at: t }; },
    };
    match parse_type(s, name_stop) {
        Step::Done { value, next } => {
            let e = skip(s, next);
            if !at_char(s, e, ')') {
                Step::Miss { at: e }
            } else {
                Step::Done { value: (slice_text(s, t + 1, name_stop), value), next: e + 1 }
            }
        },
        Step::Miss { at } => Step::Miss { at },
        Step::Fail { kind, at } => Step::Fail { kind, at },
    }
}

/// Reads fields in a row, each after optional whitespace.
#[verifier::spinoff_prover]
pub(crate) fn fields(s: &[char], pos: usize) -> (r: Step<Vec<(String, VarType)>>)
    requires
        pos <= s.len(),
    ensures
        r.agrees(
            pos,
            s.len(),
            |v: Vec<(String, VarType)>| field_models(v),
            fields_at(s@, pos as nat),
        ),
    decreases s.len() - pos, 4nat,
{
    let mut out: Vec<(String, VarType)> = Vec::new();
    let mut cur: usize = pos;
    loop
        invariant
            pos <= cur <= s.len(),
            fields_at(s@, pos as nat) == fields_at(s@, cur as nat).behind(
                field_models(out),
                (cur - pos) as nat,
            ),
        decreases s.len() - cur,
    {
        reveal(fields_at);
        reveal(field_at);
        proof {
            lemma_row(field_models(out), (Seq::empty(), TypeModel::Void), Seq::empty());
        }
        let p = skip(s, cur);
        match field(s, p) {
            Step::Done { value, next } => {
                if next == p || p >= s.len() {
                    return Step::Done { value: out, next: cur };
                }
                let ghost before = out;
                out.push(value);
                proof {
                    lemma_fields_push(before, out, value);
                    if let Parsed::Done { value: more, len } = fields_at(s@, next as nat) {
                        lemma_row(field_models(before), (value.0@, value.1@), more);
                    }
                }
                cur = next;
            },
            Step::Miss { at } => {
                return Step::Done { value: out, next: cur };
            },
            Step::Fail { kind, at } => {
                return Step::Fail { kind, at };
            },
        }
    }
}

#[verifier::spinoff_prover]
fn structure(s: &[char], pos: usize) -> (r: Step<VarType>)
    requires
        pos <= s.len(),
    ensures
        r.matches(pos, s.len(), struct_at(s@, pos as nat)),
    decreases s.len() - pos, 0nat,
{
    reveal(VarType::tree);
    reveal(struct_at);
    reveal(fields_at);
    let a = match head(s, pos, "struct") {
        Ok(a) => a,
        Err(at) => { return Step::Miss { at }; },
    };
    let (generics, b) = opt_generics(s, a);
    match fields(s, b) {
        Step::Done { value, next } => {
            let e = skip(s, next);
            assert(firsts(field_models(value)) =~= Seq::new(
                value.len() as nat,
                |i: int| value[i].0@,
            ));
            if value.len() == 0 || !at_char(s, e, ')') {
                Step::Miss { at: e }
            } else if !distinct(&value) {
                Step::Fail { kind: ErrorKind::DuplicateName, at: pos }
            } else {
                let made = match generics {
                    Some(g) => VarType::GenericStruct(g, value),
                    None => VarType::Struct(value),
                };
                Step::Done { value: made, next: e + 1 }
            }
        },
        Step::Miss { at } => Step::Miss { at },
        Step::Fail { kind, at } => Step::Fail { kind, at },
    }
}

fn named_type(s: &[char], pos: usize) -> (r: Step<VarType>)
    requires
        pos <= s.len(),
    ensures
        r.matches(pos, s.len(), named_type_at(s@, pos as nat)),
{
    reveal(VarType::tree);
    reveal(named_type_at);
    match name_end(s, pos, CharClass::Ident) {
        Some(end) => Step::Done { value: VarType::IdentType(slice_text(s, pos, end)), next: end },
        None => Step::Miss { at: pos },
    }
}

} // verus!
