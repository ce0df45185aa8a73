//! The parser of literals, statements and function definitions: one function
//! for each production, each returning what the grammar says.

use vstd::prelude::*;
use crate::ast::{DefVar, FnDef, Literal, Statement};
use crate::model::{lemma_row, lemma_stmts_push, LiteralModel, stmt_models, StmtModel};
use crate::outcome::{ErrorKind, Parsed, Step};
use crate::stmt_grammar::{
    access_at, array_literal_at, atom_at, atomic_at, bool_at, call_at, calling_at, char_at,
    collection_at, data_literal_at, def_at, do_at, dollar_at, field_access_at, fn_at, fn_literal_at,
    generic_call_at, ident_at, if_at, index_access_at, keyword_form_at, literal_at, number_at,
    paren_at, quoted_at, stmt_at, stmt_choice_at, stmts_at, string_at, tuple_literal_at,
};
use crate::text::{
    at_char, at_keyword, CharClass, has_char, in_class, name_end, number, scan, skip, skip_space,
    slice_text,
};
use crate::type_parser::{fields, generics, head, opt_generics, parse_type, tag};

verus! {

/// Reads the character `c`, which is due after optional whitespace from `end`
/// on, and with it ends a production that stands for `value`.
pub(crate) fn close<T>(s: &[char], end: usize, c: char, value: T) -> (r: Step<T>)
    requires
        end <= s.len(),
    ensures
        match r {
            Step::Done { value: v, next } => v == value && has_char(
                s@,
                skip_space(s@, end as nat),
                c,
            ) && next == skip_space(s@, end as nat) + 1 && next <= s.len(),
            Step::Miss { at } => !has_char(s@, skip_space(s@, end as nat), c) && at == skip_space(
                s@,
                end as nat,
            ),
            Step::Fail { kind, at } => false,
        },
{
    let e = skip(s, end);
    if at_char(s, e, c) {
        Step::Done { value, next: e + 1 }
    } else {
        Step::Miss { at: e }
    }
}

fn numeral(s: &[char], pos: usize) -> (r: Step<Literal>)
    requires
        pos <= s.len(),
    ensures
        r.matches(pos, s.len(), number_at(s@, pos as nat)),
{
    reveal(number_at);
    reveal(Literal::tree);
    reveal(in_class);
    let whole_end = scan(s, pos, CharClass::Digit);
    if whole_end == pos {
        return Step::Miss { at: pos };
    }
    if at_char(s, whole_end, '.') {
        let end = scan(s, whole_end + 1, CharClass::Digit);
        if end > whole_end + 1 {
            return Step::Done { value: Literal::Float(slice_text(s, pos, end)), next: end };
        }
    }
    match number(s, pos, whole_end, i64::MAX as u64) {
        Some(n) => Step::Done { value: Literal::Int(n as i64), next: whole_end },
        None => Step::Fail { kind: ErrorKind::NumberRange, at: pos },
    }
}

fn boolean(s: &[char], pos: usize) -> (r: Step<Literal>)
    requires
        pos <= s.len(),
    ensures
        r.matches(pos, s.len(), bool_at(s@, pos as nat)),
{
    reveal(bool_at);
    reveal(Literal::tree);
    if let Some(next) = at_keyword(s, pos, "true") {
        Step::Done { value: Literal::Bool(true), next }
    } else if let Some(next) = at_keyword(s, pos, "false") {
        Step::Done { value: Literal::Bool(false), next }
    } else {
        Step::Miss { at: pos }
    }
}

fn atom(s: &[char], pos: usize) -> (r: Step<Literal>)
    requires
        pos <= s.len(),
    ensures
        r.matches(pos, s.len(), atom_at(s@, pos as nat)),
{
    reveal(atom_at);
    reveal(Literal::tree);
    match tag(s, pos) {
        Some(end) => Step::Done { value: Literal::Atom(slice_text(s, pos + 1, end)), next: end },
        None => Step::Miss { at: pos },
    }
}

fn character(s: &[char], pos: usize) -> (r: Step<Literal>)
    requires
        pos <= s.len(),
    ensures
        r.matches(pos, s.len(), char_at(s@, pos as nat)),
{
    reveal(char_at);
    reveal(Literal::tree);
    if !at_char(s, pos, '\'') {
        Step::Miss { at: pos }
    } else if pos + 1 >= s.len() || s[pos + 1] == '\'' {
        Step::Miss { at: pos + 1 }
    } else if !at_char(s, pos + 2, '\'') {
        Step::Miss { at: pos + 2 }
    } else {
        Step::Done { value: char_of(s[pos + 1]), next: pos + 3 }
    }
}

/// Reads characters between double quotes.
pub(crate) fn string(s: &[char], pos: usize) -> (r: Step<String>)
    requires
        pos <= s.len(),
    ensures
        r.matches(pos, s.len(), string_at(s@, pos as nat)),
{
    reveal(string_at);
    if !at_char(s, pos, '"') {
        return Step::Miss { at: pos };
    }
    let end = scan(s, pos + 1, CharClass::Quoted);
    if !at_char(s, end, '"') {
        Step::Miss { at: end }
    } else {
        Step::Done { value: slice_text(s, pos + 1, end), next: end + 1 }
    }
}

fn quoted(s: &[char], pos: usize) -> (r: Step<Literal>)
    requires
        pos <= s.len(),
    ensures
        r.matches(pos, s.len(), quoted_at(s@, pos as nat)),
{
    reveal(quoted_at);
    reveal(Literal::tree);
    let r = character(s, pos);
    let far = match r {
        Step::Miss { at } => at,
        _ => { return r; },
    };
    match string(s, pos) {
        Step::Done { value, next } => Step::Done { value: Literal::String(value), next },
        Step::Miss { at } => Step::Miss { at: if at > far { at } else { far } },
        Step::Fail { kind, at } => Step::Fail { kind, at },
    }
}

/// Reads a scalar literal.
pub(crate) fn scalar_literal(s: &[char], pos: usize) -> (r: Step<Literal>)
    requires
        pos <= s.len(),
    ensures
        r.matches(pos, s.len(), literal_at(s@, pos as nat)),
{
    reveal(literal_at);
    let r = numeral(s, pos);
    let far = match r {
        Step::Miss { at } => at,
        _ => { return r; },
    };
    let r = boolean(s, pos);
    let far = match r {
        Step::Miss { at } => if at > far { at } else { far },
        _ => { return r; },
    };
    let r = atom(s, pos);
    let far = match r {
        Step::Miss { at } => if at > far { at } else { far },
        _ => { return r; },
    };
    let r = quoted(s, pos);
    match r {
        Step::Miss { at } => Step::Miss { at: if at > far { at } else { far } },
        _ => r,
    }
}

/// Reads a statement, after optional whitespace.
#[verifier::spinoff_prover]
pub(crate) fn parse_stmt(s: &[char], pos: usize) -> (r: Step<Statement>)
    requires
        pos <= s.len(),
    ensures
        r.matches(pos, s.len(), stmt_at(s@, pos as nat)),
    decreases s.len() - pos, 4nat,
{
    reveal(stmt_at);
    reveal(stmt_choice_at);
    stmt_choice(s, skip(s, pos))
}

#[verifier::spinoff_prover]
fn stmt_choice(s: &[char], pos: usize) -> (r: Step<Statement>)
    requires
        pos <= s.len(),
    ensures
        r.matches(pos, s.len(), stmt_choice_at(s@, pos as nat)),
    decreases s.len() - pos, 3nat,
{
    reveal(stmt_choice_at);
    reveal(paren_at);
    reveal(collection_at);
    let r = paren(s, pos);
    let far = match r {
        Step::Miss { at } => at,
        _ => { return r; },
    };
    let r = collection(s, pos);
    let far = match r {
        Step::Miss { at } => if at > far { at } else { far },
        _ => { return r; },
    };
    let r = atomic(s, pos);
    match r {
        Step::Miss { at } => Step::Miss { at: if at > far { at } else { far } },
        _ => r,
    }
}

/// Reads statements in a row.
#[verifier::spinoff_prover]
pub(crate) fn parse_stmts(s: &[char], pos: usize) -> (r: Step<Vec<Statement>>)
    requires
        pos <= s.len(),
    ensures
        r.agrees(pos, s.len(), |v: Vec<Statement>| stmt_models(v), stmts_at(s@, pos as nat)),
    decreases s.len() - pos, 5nat,
{
    let mut out: Vec<Statement> = Vec::new();
    let mut cur: usize = pos;
    loop
        invariant
            pos <= cur <= s.len(),
            stmts_at(s@, pos as nat) == stmts_at(s@, cur as nat).behind(
                stmt_models(out),
                (cur - pos) as nat,
            ),
        decreases s.len() - cur,
    {
        reveal(stmts_at);
        reveal(stmt_at);
        proof {
            lemma_row(stmt_models(out), StmtModel::DoBlock(Seq::empty()), Seq::empty());
        }
        if cur >= s.len() {
            return Step::Done { value: out, next: cur };
        }
        match parse_stmt(s, cur) {
            Step::Done { value, next } => {
                if next == cur {
                    return Step::Done { value: out, next: cur };
                }
                let ghost before = out;
                out.push(value);
                proof {
                    lemma_stmts_push(before, out, value);
                    if let Parsed::Done { value: more, len } = stmts_at(s@, next as nat) {
                        lemma_row(stmt_models(before), value@, more);
                    }
                }
                cur = next;
            },
            Step::Miss { at } => {
                return Step::Done { value: out, next: cur };
            },
            Step::Fail { kind, at } => {
                return Step::Fail { kind, at };
            },
        }
    }
}

fn if_of(condition: Statement, then: Statement) -> (r: Statement)
    ensures
        r@ == StmtModel::If(Box::new(condition@), Box::new(then@)),
{
    reveal(Statement::tree);
    Statement::If(Box::new(condition), Box::new(then))
}

fn if_else_of(condition: Statement, then: Statement, otherwise: Statement) -> (r: Statement)
    ensures
        r@ == StmtModel::IfElse(Box::new(condition@), Box::new(then@), Box::new(otherwise@)),
{
    reveal(Statement::tree);
    Statement::IfElse(Box::new(condition), Box::new(then), Box::new(otherwise))
}

fn get_field_of(field: String, target: Statement) -> (r: Statement)
    ensures
        r@ == StmtModel::GetField(field@, Box::new(target@)),
{
    reveal(Statement::tree);
    Statement::GetField(field, Box::new(target))
}

fn set_field_of(field: String, target: Statement, value: Statement) -> (r: Statement)
    ensures
        r@ == StmtModel::SetField(field@, Box::new(target@), Box::new(value@)),
{
    reveal(Statement::tree);
    Statement::SetField(field, Box::new(target), Box::new(value))
}

fn get_indexed_of(index: Statement, target: Statement) -> (r: Statement)
    ensures
        r@ == StmtModel::GetIndexed(Box::new(index@), Box::new(target@)),
{
    reveal(Statement::tree);
    Statement::GetIndexed(Box::new(index), Box::new(target))
}

fn set_indexed_of(index: Statement, target: Statement, value: Statement) -> (r: Statement)
    ensures
        r@ == StmtModel::SetIndexed(Box::new(index@), Box::new(target@), Box::new(value@)),
{
    reveal(Statement::tree);
    Statement::SetIndexed(Box::new(index), Box::new(target), Box::new(value))
}

fn literal_of(value: Literal) -> (r: Statement)
    ensures
        r@ == StmtModel::Literal(value@),
{
    reveal(Statement::tree);
    reveal(Literal::tree);
    Statement::Literal(value)
}

fn tuple_of(items: Vec<Statement>) -> (r: Literal)
    ensures
        r@ == LiteralModel::Tuple(stmt_models(items)),
{
    reveal(Literal::tree);
    Literal::Tuple(items)
}

fn data_of(tag: String, items: Vec<Statement>) -> (r: Literal)
    ensures
        r@ == LiteralModel::Data(tag@, stmt_models(items)),
{
    reveal(Literal::tree);
    Literal::Data(tag, items)
}

fn array_of(items: Vec<Statement>) -> (r: Literal)
    ensures
        r@ == LiteralModel::Array(stmt_models(items)),
{
    reveal(Literal::tree);
    Literal::Array(items)
}

fn fn_value_of(f: FnDef) -> (r: Literal)
    ensures
        r@ == LiteralModel::Fn(Box::new(f@)),
{
    reveal(Literal::tree);
    reveal(FnDef::tree);
    Literal::Fn(Box::new(f))
}

fn char_of(c: char) -> (r: Literal)
    ensures
        r@ == LiteralModel::Char(c),
{
    reveal(Literal::tree);
    Literal::Char(c)
}

#[verifier::spinoff_prover]
fn paren(s: &[char], pos: usize) -> (r: Step<Statement>)
    requires
        pos <= s.len(),
    ensures
        r.matches(pos, s.len(), paren_at(s@, pos as nat)),
    decreases s.len() - pos, 2nat,
{
    reveal(paren_at);
    reveal(keyword_form_at);
    reveal(access_at);
    reveal(fn_literal_at);
    reveal(calling_at);
    let r = keyword_form(s, pos);
    let far = match r {
        Step::Miss { at } => at,
        _ => { return r; },
    };
    let r = access(s, pos);
    let far = match r {
        Step::Miss { at } => if at > far { at } else { far },
        _ => { return r; },
    };
    let r = fn_literal(s, pos);
    let far = match r {
        Step::Miss { at } => if at > far { at } else { far },
        _ => { return r; },
    };
    let r = calling(s, pos);
    match r {
        Step::Miss { at } => Step::Miss { at: if at > far { at } else { far } },
        _ => r,
    }
}

#[verifier::spinoff_prover]
fn keyword_form(s: &[char], pos: usize) -> (r: Step<Statement>)
    requires
        pos <= s.len(),
    ensures
        r.matches(pos, s.len(), keyword_form_at(s@, pos as nat)),
    decreases s.len() - pos, 1nat,
{
    reveal(keyword_form_at);
    reveal(if_at);
    reveal(do_at);
    reveal(def_at);
    let r = if_form(s, pos);
    let far = match r {
        Step::Miss { at } => at,
        _ => { return r; },
    };
    let r = do_form(s, pos);
    let far = match r {
        Step::Miss { at } => if at > far { at } else { far },
        _ => { return r; },
    };
    let r = def_form(s, pos);
    match r {
        Step::Miss { at } => Step::Miss { at: if at > far { at } else { far } },
        _ => r,
    }
}

#[verifier::spinoff_prover]
fn if_form(s: &[char], pos: usize) -> (r: Step<Statement>)
    requires
        pos <= s.len(),
    ensures
        r.matches(pos, s.len(), if_at(s@, pos as nat)),
    decreases s.len() - pos, 0nat,
{
    reveal(if_at);
    reveal(stmt_at);
    let a = match head(s, pos, "if") {
        Ok(a) => a,
        Err(at) => { return Step::Miss { at }; },
    };
    let (condition, a1) = match parse_stmt(s, a) {
        Step::Done { value, next } => (value, next),
        Step::Miss { at } => { return Step::Miss { at }; },
        Step::Fail { kind, at } => { return Step::Fail { kind, at }; },
    };
    let (then, a2) = match parse_stmt(s, a1) {
        Step::Done { value, next } => (value, next),
        Step::Miss { at } => { return Step::Miss { at }; },
        Step::Fail { kind, at } => { return Step::Fail { kind, at }; },
    };
    match parse_stmt(s, a2) {
        Step::Done { value, next } => close(s, next, ')', if_else_of(condition, then, value)),
        Step::Miss { at } => close(s, a2, ')', if_of(condition, then)),
        Step::Fail { kind, at } => Step::Fail { kind, at },
    }
}

#[verifier::spinoff_prover]
fn do_form(s: &[char], pos: usize) -> (r: Step<Statement>)
    requires
        pos <= s.len(),
    ensures
        r.matches(pos, s.len(), do_at(s@, pos as nat)),
    decreases s.len() - pos, 0nat,
{
    reveal(do_at);
    reveal(stmts_at);
    reveal(Statement::tree);
    let a = match head(s, pos, "do") {
        Ok(a) => a,
        Err(at) => { return Step::Miss { at }; },
    };
    match parse_stmts(s, a) {
        Step::Done { value, next } => close(s, next, ')', Statement::DoBlock(value)),
        Step::Miss { at } => Step::Miss { at },
        Step::Fail { kind, at } => Step::Fail { kind, at },
    }
}

#[verifier::spinoff_prover]
fn def_form(s: &[char], pos: usize) -> (r: Step<Statement>)
    requires
        pos <= s.len(),
    ensures
        r.matches(pos, s.len(), def_at(s@, pos as nat)),
    decreases s.len() - pos, 0nat,
{
    reveal(def_at);
    reveal(stmt_at);
    reveal(Statement::tree);
    let a = match head(s, pos, "def") {
        Ok(a) => a,
        Err(at) => { return Step::Miss { at }; },
    };
    let n = skip(s, a);
    let name_stop = match name_end(s, n, CharClass::Ident) {
        Some(end) => end,
        None => { return Step::Miss { at: n }; },
    };
    match parse_stmt(s, name_stop) {
        Step::Done { value, next } => {
            let def = DefVar { name: slice_text(s, n, name_stop), instruction: Box::new(value) };
            close(s, next, ')', Statement::DefVar(def))
        },
        Step::Miss { at } => Step::Miss { at },
        Step::Fail { kind, at } => Step::Fail { kind, at },
    }
}

fn dollar(s: &[char], pos: usize) -> (r: Result<usize, usize>)
    requires
        pos <= s.len(),
    ensures
        r matches Ok(a) ==> dollar_at(s@, pos as nat) == Ok::<nat, nat>(a as nat) && pos < a
            <= s.len(),
        r matches Err(at) ==> dollar_at(s@, pos as nat) == Err::<nat, nat>(at as nat),
{
    if !at_char(s, pos, '(') {
        return Err(pos);
    }
    let k = skip(s, pos + 1);
    if at_char(s, k, '$') {
        Ok(k + 1)
    } else {
        Err(k)
    }
}

#[verifier::spinoff_prover]
fn access(s: &[char], pos: usize) -> (r: Step<Statement>)
    requires
        pos <= s.len(),
    ensures
        r.matches(pos, s.len(), access_at(s@, pos as nat)),
    decreases s.len() - pos, 1nat,
{
    reveal(access_at);
    reveal(field_access_at);
    reveal(index_access_at);
    let r = field_access(s, pos);
    let far = match r {
        Step::Miss { at } => at,
        _ => { return r; },
    };
    let r = index_access(s, pos);
    match r {
        Step::Miss { at } => Step::Miss { at: if at > far { at } else { far } },
        _ => r,
    }
}

#[verifier::spinoff_prover]
fn field_access(s: &[char], pos: usize) -> (r: Step<Statement>)
    requires
        pos <= s.len(),
    ensures
        r.matches(pos, s.len(), field_access_at(s@, pos as nat)),
    decreases s.len() - pos, 0nat,
{
    reveal(field_access_at);
    reveal(stmt_at);
    let a = match dollar(s, pos) {
        Ok(a) => a,
        Err(at) => { return Step::Miss { at }; },
    };
    let t = skip(s, a);
    let name_stop = match tag(s, t) {
        Some(end) => end,
        None => { return Step::Miss { at: t }; },
    };
    let (target, a1) = match parse_stmt(s, name_stop) {
        Step::Done { value, next } => (value, next),
        Step::Miss { at } => { return Step::Miss { at }; },
        Step::Fail { kind, at } => { return Step::Fail { kind, at }; },
    };
    let field = slice_text(s, t + 1, name_stop);
    match parse_stmt(s, a1) {
        Step::Done { value, next } => close(s, next, ')', set_field_of(field, target, value)),
        Step::Miss { at } => close(s, a1, ')', get_field_of(field, target)),
        Step::Fail { kind, at } => Step::Fail { kind, at },
    }
}

#[verifier::spinoff_prover]
fn index_access(s: &[char], pos: usize) -> (r: Step<Statement>)
    requires
        pos <= s.len(),
    ensures
        r.matches(pos, s.len(), index_access_at(s@, pos as nat)),
    decreases s.len() - pos, 0nat,
{
    reveal(index_access_at);
    reveal(stmt_at);
    let a = match dollar(s, pos) {
        Ok(a) => a,
        Err(at) => { return Step::Miss { at }; },
    };
    let o = skip(s, a);
    if !at_char(s, o, '[') {
        return Step::Miss { at: o };
    }
    let (index, a0) = match parse_stmt(s, o + 1) {
        Step::Done { value, next } => (value, next),
        Step::Miss { at } => { return Step::Miss { at }; },
        Step::Fail { kind, at } => { return Step::Fail { kind, at }; },
    };
    let c = skip(s, a0);
    if !at_char(s, c, ']') {
        return Step::Miss { at: c };
    }
    let (target, a1) = match parse_stmt(s, c + 1) {
        Step::Done { value, next } => (value, next),
        Step::Miss { at } => { return Step::Miss { at }; },
        Step::Fail { kind, at } => { return Step::Fail { kind, at }; },
    };
    match parse_stmt(s, a1) {
        Step::Done { value, next } => close(s, next, ')', set_indexed_of(index, target, value)),
        Step::Miss { at } => close(s, a1, ')', get_indexed_of(index, target)),
        Step::Fail { kind, at } => Step::Fail { kind, at },
    }
}

/// Reads a function definition.
#[verifier::spinoff_prover]
pub(crate) fn fn_def(s: &[char], pos: usize) -> (r: Step<FnDef>)
    requires
        pos <= s.len(),
    ensures
        r.matches(pos, s.len(), fn_at(s@, pos as nat)),
    decreases s.len() - pos, 0nat,
{
    reveal(fn_at);
    reveal(stmt_at);
    reveal(FnDef::tree);
    reveal(Statement::tree);
    let a = match head(s, pos, "fn") {
        Ok(a) => a,
        Err(at) => { return Step::Miss { at }; },
    };
    let (generic_types, b) = opt_generics(s, a);
    let o = skip(s, b);
    if !at_char(s, o, '[') {
        return Step::Miss { at: o };
    }
    let (parameters, a0) = match fields(s, o + 1) {
        Step::Done { value, next } => (value, next),
        Step::Miss { at } => { return Step::Miss { at }; },
        Step::Fail { kind, at } => { return Step::Fail { kind, at }; },
    };
    let c = skip(s, a0);
    if !at_char(s, c, ']') {
        return Step::Miss { at: c };
    }
    let (return_type, a1) = match parse_type(s, c + 1) {
        Step::Done { value, next } => (value, next),
        Step::Miss { at } => { return Step::Miss { at }; },
        Step::Fail { kind, at } => { return Step::Fail { kind, at }; },
    };
    let (statement, a2) = match parse_stmt(s, a1) {
        Step::Done { value, next } => (value, next),
        Step::Miss { at } => { return Step::Miss { at }; },
        Step::Fail { kind, at } => { return Step::Fail { kind, at }; },
    };
    close(s, a2, ')', FnDef { generic_types, parameters, return_type, statement })
}

#[verifier::spinoff_prover]
fn fn_literal(s: &[char], pos: usize) -> (r: Step<Statement>)
    requires
        pos <= s.len(),
    ensures
        r.matches(pos, s.len(), fn_literal_at(s@, pos as nat)),
    decreases s.len() - pos, 1nat,
{
    reveal(fn_literal_at);
    reveal(fn_at);
    match fn_def(s, pos) {
        Step::Done { value, next } => Step::Done { value: literal_of(fn_value_of(value)), next },
        Step::Miss { at } => Step::Miss { at },
        Step::Fail { kind, at } => Step::Fail { kind, at },
    }
}

#[verifier::spinoff_prover]
fn calling(s: &[char], pos: usize) -> (r: Step<Statement>)
    requires
        pos <= s.len(),
    ensures
        r.matches(pos, s.len(), calling_at(s@, pos as nat)),
    decreases s.len() - pos, 1nat,
{
    reveal(calling_at);
    reveal(generic_call_at);
    reveal(call_at);
    let r = generic_call(s, pos);
    let far = match r {
        Step::Miss { at } => at,
        _ => { return r; },
    };
    let r = call(s, pos);
    match r {
        Step::Miss { at } => Step::Miss { at: if at > far { at } else { far } },
        _ => r,
    }
}

#[verifier::spinoff_prover]
fn generic_call(s: &[char], pos: usize) -> (r: Step<Statement>)
    requires
        pos <= s.len(),
    ensures
        r.matches(pos, s.len(), generic_call_at(s@, pos as nat)),
    decreases s.len() - pos, 0nat,
{
    reveal(generic_call_at);
    reveal(stmts_at);
    reveal(Statement::tree);
    if !at_char(s, pos, '(') {
        return Step::Miss { at: pos };
    }
    let n = skip(s, pos + 1);
    let name_stop = match name_end(s, n, CharClass::Word) {
        Some(end) => end,
        None => { return Step::Miss { at: n }; },
    };
    let (type_arguments, a0) = match generics(s, name_stop) {
        Step::Done { value, next } => (value, next),
        Step::Miss { at } => { return Step::Miss { at }; },
        Step::Fail { kind, at } => { return Step::Fail { kind, at }; },
    };
    match parse_stmts(s, a0) {
        Step::Done { value, next } => close(
            s,
            next,
            ')',
            Statement::GenericCall(slice_text(s, n, name_stop), type_arguments, value),
        ),
        Step::Miss { at } => Step::Miss { at },
        Step::Fail { kind, at } => Step::Fail { kind, at },
    }
}

#[verifier::spinoff_prover]
fn call(s: &[char], pos: usize) -> (r: Step<Statement>)
    requires
        pos <= s.len(),
    ensures
        r.matches(pos, s.len(), call_at(s@, pos as nat)),
    decreases s.len() - pos, 0nat,
{
    reveal(call_at);
    reveal(stmts_at);
    reveal(Statement::tree);
    if !at_char(s, pos, '(') {
        return Step::Miss { at: pos };
    }
    let n = skip(s, pos + 1);
    let name_stop = match name_end(s, n, CharClass::Ident) {
        Some(end) => end,
        None => { return Step::Miss { at: n }; },
    };
    match parse_stmts(s, name_stop) {
        Step::Done { value, next } => close(
            s,
            next,
            ')',
            Statement::Call(slice_text(s, n, name_stop), value),
        ),
        Step::Miss { at } => Step::Miss { at },
        Step::Fail { kind, at } => Step::Fail { kind, at },
    }
}

#[verifier::spinoff_prover]
fn collection(s: &[char], pos: usize) -> (r: Step<Statement>)
    requires
        pos <= s.len(),
    ensures
        r.matches(pos, s.len(), collection_at(s@, pos as nat)),
    decreases s.len() - pos, 1nat,
{
    reveal(collection_at);
    reveal(tuple_literal_at);
    reveal(data_literal_at);
    reveal(array_literal_at);
    let r = tuple_literal(s, pos);
    let far = match r {
        Step::Miss { at } => at,
        _ => { return r; },
    };
    let r = data_literal(s, pos);
    let far = match r {
        Step::Miss { at } => if at > far { at } else { far },
        _ => { return r; },
    };
    let r = array_literal(s, pos);
    match r {
        Step::Miss { at } => Step::Miss { at: if at > far { at } else { far } },
        _ => r,
    }
}

#[verifier::spinoff_prover]
fn tuple_literal(s: &[char], pos: usize) -> (r: Step<Statement>)
    requires
        pos <= s.len(),
    ensures
        r.matches(pos, s.len(), tuple_literal_at(s@, pos as nat)),
    decreases s.len() - pos, 0nat,
{
    reveal(tuple_literal_at);
    reveal(stmts_at);
    if !at_char(s, pos, '{') {
        return Step::Miss { at: pos };
    }
    match parse_stmts(s, pos + 1) {
        Step::Done { value, next } => close(
            s,
            next,
            '}',
            literal_of(tuple_of(value)),
        ),
        Step::Miss { at } => Step::Miss { at },
        Step::Fail { kind, at } => Step::Fail { kind, at },
    }
}

#[verifier::spinoff_prover]
fn data_literal(s: &[char], pos: usize) -> (r: Step<Statement>)
    requires
        pos <= s.len(),
    ensures
        r.matches(pos, s.len(), data_literal_at(s@, pos as nat)),
    decreases s.len() - pos, 0nat,
{
    reveal(data_literal_at);
    reveal(stmts_at);
    if !at_char(s, pos, '[') {
        return Step::Miss { at: pos };
    }
    let t = skip(s, pos + 1);
    let name_stop = match tag(s, t) {
        Some(end) => end,
        None => { return Step::Miss { at: t }; },
    };
    match parse_stmts(s, name_stop) {
        Step::Done { value, next } => close(
            s,
            next,
            ']',
            literal_of(data_of(slice_text(s, t + 1, name_stop), value)),
        ),
        Step::Miss { at } => Step::Miss { at },
        Step::Fail { kind, at } => Step::Fail { kind, at },
    }
}

#[verifier::spinoff_prover]
fn array_literal(s: &[char], pos: usize) -> (r: Step<Statement>)
    requires
        pos <= s.len(),
    ensures
        r.matches(pos, s.len(), array_literal_at(s@, pos as nat)),
    decreases s.len() - pos, 0nat,
{
    reveal(array_literal_at);
    reveal(stmts_at);
    if !at_char(s, pos, '[') {
        return Step::Miss { at: pos };
    }
    match parse_stmts(s, pos + 1) {
        Step::Done { value, next } => close(
            s,
            next,
            ']',
            literal_of(array_of(value)),
        ),
        Step::Miss { at } => Step::Miss { at },
        Step::Fail { kind, at } => Step::Fail { kind, at },
    }
}

fn ident(s: &[char], pos: usize) -> (r: Step<Statement>)
    requires
        pos <= s.len(),
    ensures
        r.matches(pos, s.len(), ident_at(s@, pos as nat)),
{
    reveal(ident_at);
    reveal(Statement::tree);
    match name_end(s, pos, CharClass::Ident) {
        Some(end) => Step::Done { value: Statement::Ident(slice_text(s, pos, end)), next: end },
        None => Step::Miss { at: pos },
    }
}

fn atomic(s: &[char], pos: usize) -> (r: Step<Statement>)
    requires
        pos <= s.len(),
    ensures
        r.matches(pos, s.len(), atomic_at(s@, pos as nat)),
{
    reveal(atomic_at);
    reveal(Statement::tree);
    reveal(Literal::tree);
    let r = ident(s, pos);
    let far = match r {
        Step::Miss { at } => at,
        _ => { return r; },
    };
    match scalar_literal(s, pos) {
        Step::Done { value, next } => Step::Done { value: Statement::Literal(value), next },
        Step::Miss { at } => Step::Miss { at: if at > far { at } else { far } },
        Step::Fail { kind, at } => Step::Fail { kind, at },
    }
}

} // verus!
