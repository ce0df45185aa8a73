//! The grammar of literals, statements and function definitions.
//!
//! The conventions are those of the type grammar.

use vstd::prelude::*;
use crate::model::{FnModel, LiteralModel, StmtModel, Text};
use crate::outcome::{closed, ErrorKind, Parsed};
use crate::text::{CharClass, decimal, has_char, has_keyword, name_len, run, skip_space};
use crate::type_grammar::{
    fields_at, generics_at, head_at, opt_generics_at, piece, rest, tag_at, type_at,
};

verus! {

/// A number: digits, a point and digits, or digits alone.
#[verifier::opaque]
pub open spec fn number_at(s: Text, pos: nat) -> Parsed<LiteralModel> {
    let whole = run(s, pos, CharClass::Digit);
    let fraction = run(s, pos + whole + 1, CharClass::Digit);
    if whole == 0 {
        Parsed::Miss { at: pos }
    } else if has_char(s, pos + whole, '.') && fraction > 0 {
        Parsed::Done {
            value: LiteralModel::Float(piece(s, pos, whole + 1 + fraction)),
            len: whole + 1 + fraction,
        }
    } else if decimal(piece(s, pos, whole)) > i64::MAX {
        Parsed::Fail { kind: ErrorKind::NumberRange, at: pos }
    } else {
        Parsed::Done { value: LiteralModel::Int(decimal(piece(s, pos, whole)) as int), len: whole }
    }
}

/// `true` or `false`.
#[verifier::opaque]
pub open spec fn bool_at(s: Text, pos: nat) -> Parsed<LiteralModel> {
    if has_keyword(s, pos, "true"@) {
        Parsed::Done { value: LiteralModel::Bool(true), len: "true"@.len() }
    } else if has_keyword(s, pos, "false"@) {
        Parsed::Done { value: LiteralModel::Bool(false), len: "false"@.len() }
    } else {
        Parsed::Miss { at: pos }
    }
}

/// `:name`.
#[verifier::opaque]
pub open spec fn atom_at(s: Text, pos: nat) -> Parsed<LiteralModel> {
    match tag_at(s, pos) {
        Some(n) => Parsed::Done { value: LiteralModel::Atom(piece(s, pos + 1, n)), len: 1 + n },
        None => Parsed::Miss { at: pos },
    }
}

/// One character between single quotes. The character is taken as it stands
/// and is no single quote.
#[verifier::opaque]
pub open spec fn char_at(s: Text, pos: nat) -> Parsed<LiteralModel> {
    if !has_char(s, pos, '\'') {
        Parsed::Miss { at: pos }
    } else if pos + 1 >= s.len() || s[pos as int + 1] == '\'' {
        Parsed::Miss { at: pos + 1 }
    } else if !has_char(s, pos + 2, '\'') {
        Parsed::Miss { at: pos + 2 }
    } else {
        Parsed::Done { value: LiteralModel::Char(s[pos as int + 1]), len: 3 }
    }
}

/// Characters between double quotes, taken as they stand, none of them a
/// double quote.
#[verifier::opaque]
pub open spec fn string_at(s: Text, pos: nat) -> Parsed<Text> {
    let n = run(s, pos + 1, CharClass::Quoted);
    if !has_char(s, pos, '"') {
        Parsed::Miss { at: pos }
    } else if !has_char(s, pos + 1 + n, '"') {
        Parsed::Miss { at: pos + 1 + n }
    } else {
        Parsed::Done { value: piece(s, pos + 1, n), len: n + 2 }
    }
}

/// A character or a string.
#[verifier::opaque]
pub open spec fn quoted_at(s: Text, pos: nat) -> Parsed<LiteralModel> {
    char_at(s, pos).or(string_at(s, pos).with(|t: Text| LiteralModel::String(t)))
}

/// A scalar literal.
#[verifier::opaque]
pub open spec fn literal_at(s: Text, pos: nat) -> Parsed<LiteralModel> {
    number_at(s, pos).or(bool_at(s, pos)).or(atom_at(s, pos)).or(quoted_at(s, pos))
}

/// A statement, after optional whitespace.
#[verifier::opaque]
pub open spec fn stmt_at(s: Text, pos: nat) -> Parsed<StmtModel>
    decreases rest(s, pos), 4nat,
{
    stmt_choice_at(s, skip_space(s, pos)).after(run(s, pos, CharClass::Space))
}

/// The alternatives of a statement.
#[verifier::opaque]
pub open spec fn stmt_choice_at(s: Text, pos: nat) -> Parsed<StmtModel>
    decreases rest(s, pos), 3nat,
{
    paren_at(s, pos).or(collection_at(s, pos)).or(atomic_at(s, pos))
}

/// Statements in a row.
#[verifier::opaque]
pub open spec fn stmts_at(s: Text, pos: nat) -> Parsed<Seq<StmtModel>>
    decreases rest(s, pos), 5nat,
{
    if pos >= s.len() {
        Parsed::Done { value: Seq::empty(), len: 0 }
    } else {
        match stmt_at(s, pos) {
            Parsed::Done { value, len } => if len == 0 {
                Parsed::Done { value: Seq::empty(), len: 0 }
            } else {
                match stmts_at(s, pos + len) {
                    Parsed::Done { value: more, len: more_len } => Parsed::Done {
                        value: seq![value] + more,
                        len: len + more_len,
                    },
                    other => other,
                }
            },
            Parsed::Miss { at } => Parsed::Done { value: Seq::empty(), len: 0 },
            Parsed::Fail { kind, at } => Parsed::Fail { kind, at },
        }
    }
}

/// A form between round brackets.
#[verifier::opaque]
pub open spec fn paren_at(s: Text, pos: nat) -> Parsed<StmtModel>
    decreases rest(s, pos), 2nat,
{
    keyword_form_at(s, pos).or(access_at(s, pos)).or(fn_literal_at(s, pos)).or(calling_at(s, pos))
}

/// `if`, `do` or `def`.
#[verifier::opaque]
pub open spec fn keyword_form_at(s: Text, pos: nat) -> Parsed<StmtModel>
    decreases rest(s, pos), 1nat,
{
    if_at(s, pos).or(do_at(s, pos)).or(def_at(s, pos))
}

/// `(if condition then)` and `(if condition then else)`.
#[verifier::opaque]
pub open spec fn if_at(s: Text, pos: nat) -> Parsed<StmtModel>
    decreases rest(s, pos), 0nat,
{
    match head_at(s, pos, "if"@) {
        Err(at) => Parsed::Miss { at },
        Ok(a) => match stmt_at(s, a) {
            Parsed::Done { value: condition, len: l1 } => match stmt_at(s, a + l1) {
                Parsed::Done { value: then, len: l2 } => match stmt_at(s, a + l1 + l2) {
                    Parsed::Done { value: otherwise, len: l3 } => closed(
                        s,
                        pos,
                        a + l1 + l2 + l3,
                        ')',
                        StmtModel::IfElse(
                            Box::new(condition),
                            Box::new(then),
                            Box::new(otherwise),
                        ),
                    ),
                    Parsed::Miss { at } => closed(
                        s,
                        pos,
                        a + l1 + l2,
                        ')',
                        StmtModel::If(Box::new(condition), Box::new(then)),
                    ),
                    other => other,
                },
                other => other,
            },
            other => other,
        },
    }
}

/// `(do statement …)`.
#[verifier::opaque]
pub open spec fn do_at(s: Text, pos: nat) -> Parsed<StmtModel>
    decreases rest(s, pos), 0nat,
{
    match head_at(s, pos, "do"@) {
        Err(at) => Parsed::Miss { at },
        Ok(a) => match stmts_at(s, a) {
            Parsed::Done { value, len } => closed(s, pos, a + len, ')', StmtModel::DoBlock(value)),
            other => other.carry(),
        },
    }
}

/// `(def name value)`.
#[verifier::opaque]
pub open spec fn def_at(s: Text, pos: nat) -> Parsed<StmtModel>
    decreases rest(s, pos), 0nat,
{
    match head_at(s, pos, "def"@) {
        Err(at) => Parsed::Miss { at },
        Ok(a) => {
            let n = skip_space(s, a);
            match name_len(s, n, CharClass::Ident) {
                None => Parsed::Miss { at: n },
                Some(len) => match stmt_at(s, n + len) {
                    Parsed::Done { value, len: used } => closed(
                        s,
                        pos,
                        n + len + used,
                        ')',
                        StmtModel::DefVar(piece(s, n, len), Box::new(value)),
                    ),
                    other => other,
                },
            }
        },
    }
}

/// The position after `(` and `$`, if they stand at `pos`; else how far the
/// two got.
pub open spec fn dollar_at(s: Text, pos: nat) -> Result<nat, nat> {
    if !has_char(s, pos, '(') {
        Err(pos)
    } else {
        let k = skip_space(s, pos + 1);
        if !has_char(s, k, '$') {
            Err(k)
        } else {
            Ok(k + 1)
        }
    }
}

/// An access to a field or to an element, or an assignment to one.
#[verifier::opaque]
pub open spec fn access_at(s: Text, pos: nat) -> Parsed<StmtModel>
    decreases rest(s, pos), 1nat,
{
    field_access_at(s, pos).or(index_access_at(s, pos))
}

/// `($ :field target)` and `($ :field target value)`.
#[verifier::opaque]
pub open spec fn field_access_at(s: Text, pos: nat) -> Parsed<StmtModel>
    decreases rest(s, pos), 0nat,
{
    match dollar_at(s, pos) {
        Err(at) => Parsed::Miss { at },
        Ok(a) => {
            let t = skip_space(s, a);
            match tag_at(s, t) {
                None => Parsed::Miss { at: t },
                Some(n) => match stmt_at(s, t + 1 + n) {
                    Parsed::Done { value: target, len: l1 } => match stmt_at(s, t + 1 + n + l1) {
                        Parsed::Done { value, len: l2 } => closed(
                            s,
                            pos,
                            t + 1 + n + l1 + l2,
                            ')',
                            StmtModel::SetField(
                                piece(s, t + 1, n),
                                Box::new(target),
                                Box::new(value),
                            ),
                        ),
                        Parsed::Miss { at } => closed(
                            s,
                            pos,
                            t + 1 + n + l1,
                            ')',
                            StmtModel::GetField(piece(s, t + 1, n), Box::new(target)),
                        ),
                        other => other,
                    },
                    other => other,
                },
            }
        },
    }
}

/// `($ [index] target)` and `($ [index] target value)`.
#[verifier::opaque]
pub open spec fn index_access_at(s: Text, pos: nat) -> Parsed<StmtModel>
    decreases rest(s, pos), 0nat,
{
    match dollar_at(s, pos) {
        Err(at) => Parsed::Miss { at },
        Ok(a) => {
            let o = skip_space(s, a);
            if !has_char(s, o, '[') {
                Parsed::Miss { at: o }
            } else {
                match stmt_at(s, o + 1) {
                    Parsed::Done { value: index, len: l0 } => {
                        let c = skip_space(s, o + 1 + l0);
                        if !has_char(s, c, ']') {
                            Parsed::Miss { at: c }
                        } else {
                            match stmt_at(s, c + 1) {
                                Parsed::Done { value: target, len: l1 } => match stmt_at(
                                    s,
                                    c + 1 + l1,
                                ) {
                                    Parsed::Done { value, len: l2 } => closed(
                                        s,
                                        pos,
                                        c + 1 + l1 + l2,
                                        ')',
                                        StmtModel::SetIndexed(
                                            Box::new(index),
                                            Box::new(target),
                                            Box::new(value),
                                        ),
                                    ),
                                    Parsed::Miss { at } => closed(
                                        s,
                                        pos,
                                        c + 1 + l1,
                                        ')',
                                        StmtModel::GetIndexed(Box::new(index), Box::new(target)),
                                    ),
                                    other => other,
                                },
                                other => other,
                            }
                        }
                    },
                    other => other,
                }
            }
        },
    }
}

/// `(fn [(:name T) …] R body)`, with `<Name …>` after `fn` as an option: a
/// function definition.
#[verifier::opaque]
pub open spec fn fn_at(s: Text, pos: nat) -> Parsed<FnModel>
    decreases rest(s, pos), 0nat,
{
    match head_at(s, pos, "fn"@) {
        Err(at) => Parsed::Miss { at },
        Ok(a) => {
            let (generics, b) = opt_generics_at(s, a);
            let o = skip_space(s, b);
            if !has_char(s, o, '[') {
                Parsed::Miss { at: o }
            } else {
                match fields_at(s, o + 1) {
                    Parsed::Done { value: parameters, len: l0 } => {
                        let c = skip_space(s, o + 1 + l0);
                        if !has_char(s, c, ']') {
                            Parsed::Miss { at: c }
                        } else {
                            match type_at(s, c + 1) {
                                Parsed::Done { value: return_type, len: l1 } => match stmt_at(
                                    s,
                                    c + 1 + l1,
                                ) {
                                    Parsed::Done { value: statement, len: l2 } => closed(
                                        s,
                                        pos,
                                        c + 1 + l1 + l2,
                                        ')',
                                        FnModel {
                                            generic_types: generics,
                                            parameters,
                                            return_type,
                                            statement,
                                        },
                                    ),
                                    other => other.carry(),
                                },
                                other => other.carry(),
                            }
                        }
                    },
                    other => other.carry(),
                }
            }
        },
    }
}

/// A function definition where a value is due.
#[verifier::opaque]
pub open spec fn fn_literal_at(s: Text, pos: nat) -> Parsed<StmtModel>
    decreases rest(s, pos), 1nat,
{
    fn_at(s, pos).with(|f: FnModel| StmtModel::Literal(LiteralModel::Fn(Box::new(f))))
}

/// A call, with type arguments or without.
#[verifier::opaque]
pub open spec fn calling_at(s: Text, pos: nat) -> Parsed<StmtModel>
    decreases rest(s, pos), 1nat,
{
    generic_call_at(s, pos).or(call_at(s, pos))
}

/// `(name<Name …> argument …)`: the type arguments stand right after the
/// name.
#[verifier::opaque]
pub open spec fn generic_call_at(s: Text, pos: nat) -> Parsed<StmtModel>
    decreases rest(s, pos), 0nat,
{
    if !has_char(s, pos, '(') {
        Parsed::Miss { at: pos }
    } else {
        let n = skip_space(s, pos + 1);
        match name_len(s, n, CharClass::Word) {
            None => Parsed::Miss { at: n },
            Some(len) => match generics_at(s, n + len) {
                Parsed::Done { value: generics, len: l0 } => match stmts_at(s, n + len + l0) {
                    Parsed::Done { value, len: l1 } => closed(
                        s,
                        pos,
                        n + len + l0 + l1,
                        ')',
                        StmtModel::GenericCall(piece(s, n, len), generics, value),
                    ),
                    other => other.carry(),
                },
                other => other.carry(),
            },
        }
    }
}

/// `(name argument …)`.
#[verifier::opaque]
pub open spec fn call_at(s: Text, pos: nat) -> Parsed<StmtModel>
    decreases rest(s, pos), 0nat,
{
    if !has_char(s, pos, '(') {
        Parsed::Miss { at: pos }
    } else {
        let n = skip_space(s, pos + 1);
        match name_len(s, n, CharClass::Ident) {
            None => Parsed::Miss { at: n },
            Some(len) => match stmts_at(s, n + len) {
                Parsed::Done { value, len: l1 } => closed(
                    s,
                    pos,
                    n + len + l1,
                    ')',
                    StmtModel::Call(piece(s, n, len), value),
                ),
                other => other.carry(),
            },
        }
    }
}

/// A tuple, a tagged value or an array, written out.
#[verifier::opaque]
pub open spec fn collection_at(s: Text, pos: nat) -> Parsed<StmtModel>
    decreases rest(s, pos), 1nat,
{
    tuple_literal_at(s, pos).or(data_literal_at(s, pos)).or(array_literal_at(s, pos))
}

/// `{value …}`.
#[verifier::opaque]
pub open spec fn tuple_literal_at(s: Text, pos: nat) -> Parsed<StmtModel>
    decreases rest(s, pos), 0nat,
{
    if !has_char(s, pos, '{') {
        Parsed::Miss { at: pos }
    } else {
        match stmts_at(s, pos + 1) {
            Parsed::Done { value, len } => closed(
                s,
                pos,
                pos + 1 + len,
                '}',
                StmtModel::Literal(LiteralModel::Tuple(value)),
            ),
            other => other.carry(),
        }
    }
}

/// `[:Tag value …]`.
#[verifier::opaque]
pub open spec fn data_literal_at(s: Text, pos: nat) -> Parsed<StmtModel>
    decreases rest(s, pos), 0nat,
{
    if !has_char(s, pos, '[') {
        Parsed::Miss { at: pos }
    } else {
        let t = skip_space(s, pos + 1);
        match tag_at(s, t) {
            None => Parsed::Miss { at: t },
            Some(n) => match stmts_at(s, t + 1 + n) {
                Parsed::Done { value, len } => closed(
                    s,
                    pos,
                    t + 1 + n + len,
                    ']',
                    StmtModel::Literal(LiteralModel::Data(piece(s, t + 1, n), value)),
                ),
                other => other.carry(),
            },
        }
    }
}

/// `[value …]`.
#[verifier::opaque]
pub open spec fn array_literal_at(s: Text, pos: nat) -> Parsed<StmtModel>
    decreases rest(s, pos), 0nat,
{
    if !has_char(s, pos, '[') {
        Parsed::Miss { at: pos }
    } else {
        match stmts_at(s, pos + 1) {
            Parsed::Done { value, len } => closed(
                s,
                pos,
                pos + 1 + len,
                ']',
                StmtModel::Literal(LiteralModel::Array(value)),
            ),
            other => other.carry(),
        }
    }
}

/// A name.
#[verifier::opaque]
pub open spec fn ident_at(s: Text, pos: nat) -> Parsed<StmtModel> {
    match name_len(s, pos, CharClass::Ident) {
        Some(n) => Parsed::Done { value: StmtModel::Ident(piece(s, pos, n)), len: n },
        None => Parsed::Miss { at: pos },
    }
}

/// A name or a scalar literal.
#[verifier::opaque]
pub open spec fn atomic_at(s: Text, pos: nat) -> Parsed<StmtModel> {
    ident_at(s, pos).or(literal_at(s, pos).with(|l: LiteralModel| StmtModel::Literal(l)))
}

} // verus!
