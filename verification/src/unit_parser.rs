//! The parser of declarations: one function for each production, each
//! returning what the grammar says.

use vstd::prelude::*;
use crate::ast::{DefVar, TopLevelDef, TopLevelStatement};
use crate::model::{decl_models, DeclModel, lemma_row};
use crate::outcome::{ErrorKind, ParseError, Problem, Step};
use crate::stmt_parser::{close, fn_def, scalar_literal, string};
use crate::text::{at_char, at_keyword, CharClass, name_end, skip, slice_text};
use crate::type_parser::{head, parse_type, read_names};
use crate::unit_grammar::{alias_at, binding_at, decl_at, export_at, import_at, payload_at, unit_at};

verus! {

#[verifier::spinoff_prover]
fn import(s: &[char], pos: usize) -> (r: Step<(bool, String)>)
    requires
        pos <= s.len(),
    ensures
        r.agrees(pos, s.len(), |i: (bool, String)| (i.0, i.1@), import_at(s@, pos as nat)),
{
    reveal(import_at);
    let a = match head(s, pos, "use") {
        Ok(a) => a,
        Err(at) => { return Step::Miss { at }; },
    };
    let h = skip(s, a);
    let (header, q) = match at_keyword(s, h, ":header") {
        Some(end) => (true, skip(s, end)),
        None => (false, h),
    };
    match string(s, q) {
        Step::Done { value, next } => close(s, next, ')', (header, value)),
        Step::Miss { at } => Step::Miss { at },
        Step::Fail { kind, at } => Step::Fail { kind, at },
    }
}

#[verifier::spinoff_prover]
fn payload(s: &[char], pos: usize, name: String) -> (r: Step<TopLevelStatement>)
    requires
        pos <= s.len(),
    ensures
        r.matches(pos, s.len(), payload_at(s@, pos as nat, name@)),
{
    reveal(payload_at);
    let far = match import(s, pos) {
        Step::Done { value, next } => {
            let made = if value.0 {
                TopLevelStatement::UseHeader(name, value.1)
            } else {
                TopLevelStatement::Use(name, value.1)
            };
            return Step::Done { value: made, next };
        },
        Step::Miss { at } => at,
        Step::Fail { kind, at } => { return Step::Fail { kind, at }; },
    };
    let far = match scalar_literal(s, pos) {
        Step::Done { value, next } => {
            let def = DefVar { name, instruction: TopLevelDef::Literal(value) };
            return Step::Done { value: TopLevelStatement::TopLevelDef(def), next };
        },
        Step::Miss { at } => if at > far { at } else { far },
        Step::Fail { kind, at } => { return Step::Fail { kind, at }; },
    };
    let far = match parse_type(s, pos) {
        Step::Done { value, next } => {
            let def = DefVar { name, instruction: TopLevelDef::Typed(value) };
            return Step::Done { value: TopLevelStatement::TopLevelDef(def), next };
        },
        Step::Miss { at } => if at > far { at } else { far },
        Step::Fail { kind, at } => { return Step::Fail { kind, at }; },
    };
    match fn_def(s, pos) {
        Step::Done { value, next } => {
            let def = DefVar { name, instruction: TopLevelDef::FnDef(value) };
            Step::Done { value: TopLevelStatement::TopLevelDef(def), next }
        },
        Step::Miss { at } => Step::Miss { at: if at > far { at } else { far } },
        Step::Fail { kind, at } => Step::Fail { kind, at },
    }
}

#[verifier::spinoff_prover]
fn binding(s: &[char], pos: usize) -> (r: Step<TopLevelStatement>)
    requires
        pos <= s.len(),
    ensures
        r.matches(pos, s.len(), binding_at(s@, pos as nat)),
{
    reveal(binding_at);
    let a = match head(s, pos, "def") {
        Ok(a) => a,
        Err(at) => { return Step::Miss { at }; },
    };
    let n = skip(s, a);
    let name_stop = match name_end(s, n, CharClass::Ident) {
        Some(end) => end,
        None => { return Step::Miss { at: n }; },
    };
    let v = skip(s, name_stop);
    match payload(s, v, slice_text(s, n, name_stop)) {
        Step::Done { value, next } => close(s, next, ')', value),
        Step::Miss { at } => Step::Miss { at },
        Step::Fail { kind, at } => Step::Fail { kind, at },
    }
}

#[verifier::spinoff_prover]
fn alias(s: &[char], pos: usize) -> (r: Step<TopLevelStatement>)
    requires
        pos <= s.len(),
    ensures
        r.matches(pos, s.len(), alias_at(s@, pos as nat)),
{
    reveal(alias_at);
    let a = match head(s, pos, "type") {
        Ok(a) => a,
        Err(at) => { return Step::Miss { at }; },
    };
    let n = skip(s, a);
    let name_stop = match name_end(s, n, CharClass::Ident) {
        Some(end) => end,
        None => { return Step::Miss { at: n }; },
    };
    match parse_type(s, name_stop) {
        Step::Done { value, next } => close(
            s,
            next,
            ')',
            TopLevelStatement::TypeAlias(slice_text(s, n, name_stop), value),
        ),
        Step::Miss { at } => Step::Miss { at },
        Step::Fail { kind, at } => Step::Fail { kind, at },
    }
}

#[verifier::spinoff_prover]
fn export(s: &[char], pos: usize) -> (r: Step<TopLevelStatement>)
    requires
        pos <= s.len(),
    ensures
        r.matches(pos, s.len(), export_at(s@, pos as nat)),
{
    reveal(export_at);
    let a = match head(s, pos, "export") {
        Ok(a) => a,
        Err(at) => { return Step::Miss { at }; },
    };
    let e = skip(s, a);
    if let Some(end) = at_keyword(s, e, ":all") {
        close(s, end, ')', TopLevelStatement::ExportAll())
    } else if at_char(s, e, '[') {
        let (found, end) = read_names(s, e + 1, CharClass::Ident);
        let c = skip(s, end);
        if at_char(s, c, ']') {
            close(s, c + 1, ')', TopLevelStatement::Export(found))
        } else {
            Step::Miss { at: c }
        }
    } else {
        Step::Miss { at: e }
    }
}

/// Reads a declaration.
#[verifier::spinoff_prover]
pub(crate) fn parse_decl(s: &[char], pos: usize) -> (r: Step<TopLevelStatement>)
    requires
        pos <= s.len(),
    ensures
        r.matches(pos, s.len(), decl_at(s@, pos as nat)),
{
    reveal(decl_at);
    let r = binding(s, pos);
    let far = match r {
        Step::Miss { at } => at,
        _ => { return r; },
    };
    let r = alias(s, pos);
    let far = match r {
        Step::Miss { at } => if at > far { at } else { far },
        _ => { return r; },
    };
    let r = export(s, pos);
    match r {
        Step::Miss { at } => Step::Miss { at: if at > far { at } else { far } },
        _ => r,
    }
}

/// The declarations `first`, and then what `then` holds.
pub open spec fn led_by(
    first: Seq<DeclModel>,
    then: Result<Seq<DeclModel>, Problem>,
) -> Result<Seq<DeclModel>, Problem> {
    match then {
        Ok(more) => Ok(first + more),
        Err(e) => Err(e),
    }
}

/// Reads the declarations of a whole text.
#[verifier::spinoff_prover]
pub(crate) fn parse_unit(s: &[char]) -> (r: Result<Vec<TopLevelStatement>, ParseError>)
    ensures
        match r {
            Ok(v) => unit_at(s@, 0) == Ok::<Seq<DeclModel>, Problem>(decl_models(v@)),
            Err(e) => unit_at(s@, 0) == Err::<Seq<DeclModel>, Problem>(e@),
        },
{
    let mut out: Vec<TopLevelStatement> = Vec::new();
    let mut cur: usize = 0;
    assert(decl_models(out@) =~= Seq::empty());
    proof {
        lemma_row(Seq::<DeclModel>::empty(), DeclModel::ExportAll, Seq::empty());
        match unit_at(s@, 0) {
            Ok(more) => {
                assert(Seq::<DeclModel>::empty() + more =~= more);
            },
            Err(e) => {},
        }
    }
    loop
        invariant
            cur <= s.len(),
            unit_at(s@, 0) == led_by(decl_models(out@), unit_at(s@, cur as nat)),
        decreases s.len() - cur,
    {
        reveal(unit_at);
        proof {
            lemma_row(decl_models(out@), DeclModel::ExportAll, Seq::empty());
        }
        let p = skip(s, cur);
        if p >= s.len() {
            return Ok(out);
        }
        match parse_decl(s, p) {
            Step::Done { value, next } => {
                if next == p {
                    return Err(ParseError { kind: ErrorKind::Syntax, position: p });
                }
                let ghost before = decl_models(out@);
                out.push(value);
                proof {
                    assert(decl_models(out@) =~= before.push(value@));
                    if let Ok(more) = unit_at(s@, next as nat) {
                        lemma_row(before, value@, more);
                    }
                }
                cur = next;
            },
            Step::Miss { at } => {
                return Err(ParseError { kind: ErrorKind::Syntax, position: at });
            },
            Step::Fail { kind, at } => {
                return Err(ParseError { kind, position: at });
            },
        }
    }
}

} // verus!
