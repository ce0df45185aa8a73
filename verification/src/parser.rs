//! The parsers: from a whole text to what it stands for, or to the first
//! thing that is wrong with it.
//!
//! A position in a [`ParseError`] counts characters, not bytes.

use vstd::prelude::*;
use crate::ast::{Literal, Statement, TopLevelStatement, VarType};
use crate::model::{decl_models, DeclModel, LiteralModel, StmtModel, TypeModel};
use crate::outcome::{ErrorKind, ParseError, Problem, Step};
use crate::stmt_grammar::literal_at;
use crate::stmt_parser::{parse_stmt, scalar_literal};
use crate::text::{chars_of, skip, skip_space};
use crate::type_parser::parse_type;
use crate::unit_grammar::{literal_of, stmt_of, type_of, unit_of};
use crate::unit_parser::parse_unit;
use crate::well_formed::{
    decl_unique, law_stmt_names_unique, law_type_names_unique, law_unit_names_unique, names_unique,
    stmt_unique,
};

verus! {

/// What is left to do when a production has been tried at the start of the
/// text `s`: it must have matched, and only whitespace may follow.
fn whole<T: View>(s: &[char], step: Step<T>) -> (r: Result<T, ParseError>)
    requires
        match step {
            Step::Done { value, next } => next <= s.len(),
            _ => true,
        },
    ensures
        match step {
            Step::Done { value, next } => if skip_space(s@, next as nat) == s.len() {
                r == Ok::<T, ParseError>(value)
            } else {
                r matches Err(e) && e.kind == ErrorKind::Syntax && e.position == skip_space(
                    s@,
                    next as nat,
                )
            },
            Step::Miss { at } => r == Err::<T, ParseError>(
                ParseError { kind: ErrorKind::Syntax, position: at },
            ),
            Step::Fail { kind, at } => r == Err::<T, ParseError>(ParseError { kind, position: at }),
        },
{
    match step {
        Step::Done { value, next } => {
            let end = skip(s, next);
            if end == s.len() {
                Ok(value)
            } else {
                Err(ParseError { kind: ErrorKind::Syntax, position: end })
            }
        },
        Step::Miss { at } => Err(ParseError { kind: ErrorKind::Syntax, position: at }),
        Step::Fail { kind, at } => Err(ParseError { kind, position: at }),
    }
}

/// Parses a scalar literal: a number, `true` or `false`, an atom, a character
/// or a string. Whitespace may stand around it.
pub fn literal(input: &str) -> (r: Result<Literal, ParseError>)
    ensures
        match r {
            Ok(v) => literal_of(input@) == Ok::<LiteralModel, Problem>(v@),
            Err(e) => literal_of(input@) == Err::<LiteralModel, Problem>(e@),
        },
{
    let s = chars_of(input);
    let p = skip(s.as_slice(), 0);
    let step = scalar_literal(s.as_slice(), p);
    assert(step.matches(0, s.len(), literal_at(s@, p as nat).after(p as nat)));
    whole(s.as_slice(), step)
}

/// Parses a type. In the type that comes out, the fields of every struct have
/// distinct names and the variants of every data type distinct tags.
pub fn var_type(input: &str) -> (r: Result<VarType, ParseError>)
    ensures
        match r {
            Ok(v) => type_of(input@) == Ok::<TypeModel, Problem>(v@) && names_unique(v@),
            Err(e) => type_of(input@) == Err::<TypeModel, Problem>(e@),
        },
{
    proof {
        law_type_names_unique(input@);
    }
    let s = chars_of(input);
    let step = parse_type(s.as_slice(), 0);
    whole(s.as_slice(), step)
}

/// Parses a statement. In every type in it, the fields of every struct have
/// distinct names and the variants of every data type distinct tags.
pub fn statement(input: &str) -> (r: Result<Statement, ParseError>)
    ensures
        match r {
            Ok(v) => stmt_of(input@) == Ok::<StmtModel, Problem>(v@) && stmt_unique(v@),
            Err(e) => stmt_of(input@) == Err::<StmtModel, Problem>(e@),
        },
{
    proof {
        law_stmt_names_unique(input@);
    }
    let s = chars_of(input);
    let step = parse_stmt(s.as_slice(), 0);
    whole(s.as_slice(), step)
}

/// Parses a source unit: its declarations, in the order written. In every
/// type in them, the fields of every struct have distinct names and the
/// variants of every data type distinct tags.
pub fn parser(input: &str) -> (r: Result<Vec<TopLevelStatement>, ParseError>)
    ensures
        match r {
            Ok(v) => unit_of(input@) == Ok::<Seq<DeclModel>, Problem>(decl_models(v@))
                && forall|i: int| 0 <= i < v.len() ==> decl_unique(#[trigger] v[i]@),
            Err(e) => unit_of(input@) == Err::<Seq<DeclModel>, Problem>(e@),
        },
{
    let s = chars_of(input);
    let r = parse_unit(s.as_slice());
    proof {
        if r is Ok {
            let v = r->Ok_0;
            let decls = decl_models(v@);
            law_unit_names_unique(input@);
            let d = unit_of(input@)->Ok_0;
            assert(unit_of(input@) is Ok);
            assert(d == decls);
            assert forall|i: int| 0 <= i < v.len() implies decl_unique(#[trigger] v[i]@) by {
                assert(decl_unique(d[i]));
                assert(decls[i] == v[i]@);
            }
        }
    }
    r
}

} // verus!
