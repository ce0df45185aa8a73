//! The grammar of a source unit: declarations in a row.
//!
//! The conventions are those of the type grammar.

use vstd::prelude::*;
use crate::model::{DeclModel, FnModel, LiteralModel, PayloadModel, StmtModel, Text, TypeModel};
use crate::outcome::{closed, ErrorKind, Parsed, Problem};
use crate::stmt_grammar::{fn_at, literal_at, stmt_at, string_at};
use crate::text::{CharClass, has_char, has_keyword, name_len, run, skip_space};
use crate::type_grammar::{head_at, names_at, piece, rest, type_at};

verus! {

/// `(use "path")` and `(use :header "path")`: whether a header is meant, and
/// the path.
#[verifier::opaque]
pub open spec fn import_at(s: Text, pos: nat) -> Parsed<(bool, Text)> {
    match head_at(s, pos, "use"@) {
        Err(at) => Parsed::Miss { at },
        Ok(a) => {
            let h = skip_space(s, a);
            let header = has_keyword(s, h, ":header"@);
            let q = if header {
                skip_space(s, h + ":header"@.len())
            } else {
                h
            };
            match string_at(s, q) {
                Parsed::Done { value, len } => closed(s, pos, q + len, ')', (header, value)),
                other => other.carry(),
            }
        },
    }
}

/// What `name` is bound to: an import, a scalar literal, a type or a function
/// definition.
#[verifier::opaque]
pub open spec fn payload_at(s: Text, pos: nat, name: Text) -> Parsed<DeclModel> {
    import_at(s, pos).with(
        |i: (bool, Text)|
            if i.0 {
                DeclModel::UseHeader(name, i.1)
            } else {
                DeclModel::Use(name, i.1)
            },
    ).or(
        literal_at(s, pos).with(
            |l: LiteralModel| DeclModel::TopLevelDef(name, PayloadModel::Literal(l)),
        ),
    ).or(type_at(s, pos).with(|t: TypeModel| DeclModel::TopLevelDef(name, PayloadModel::Typed(t))))
        .or(fn_at(s, pos).with(|f: FnModel| DeclModel::TopLevelDef(name, PayloadModel::FnDef(f))))
}

/// `(def name payload)`.
#[verifier::opaque]
pub open spec fn binding_at(s: Text, pos: nat) -> Parsed<DeclModel> {
    match head_at(s, pos, "def"@) {
        Err(at) => Parsed::Miss { at },
        Ok(a) => {
            let n = skip_space(s, a);
            match name_len(s, n, CharClass::Ident) {
                None => Parsed::Miss { at: n },
                Some(len) => {
                    let v = skip_space(s, n + len);
                    match payload_at(s, v, piece(s, n, len)) {
                        Parsed::Done { value, len: used } => closed(s, pos, v + used, ')', value),
                        other => other,
                    }
                },
            }
        },
    }
}

/// `(type name T)`.
#[verifier::opaque]
pub open spec fn alias_at(s: Text, pos: nat) -> Parsed<DeclModel> {
    match head_at(s, pos, "type"@) {
        Err(at) => Parsed::Miss { at },
        Ok(a) => {
            let n = skip_space(s, a);
            match name_len(s, n, CharClass::Ident) {
                None => Parsed::Miss { at: n },
                Some(len) => match type_at(s, n + len) {
                    Parsed::Done { value, len: used } => closed(
                        s,
                        pos,
                        n + len + used,
                        ')',
                        DeclModel::TypeAlias(piece(s, n, len), value),
                    ),
                    other => other.carry(),
                },
            }
        },
    }
}

/// `(export :all)` and `(export [name …])`.
#[verifier::opaque]
pub open spec fn export_at(s: Text, pos: nat) -> Parsed<DeclModel> {
    match head_at(s, pos, "export"@) {
        Err(at) => Parsed::Miss { at },
        Ok(a) => {
            let e = skip_space(s, a);
            if has_keyword(s, e, ":all"@) {
                closed(s, pos, e + ":all"@.len(), ')', DeclModel::ExportAll)
            } else if has_char(s, e, '[') {
                let (found, len) = names_at(s, e + 1, CharClass::Ident);
                let c = skip_space(s, e + 1 + len);
                if has_char(s, c, ']') {
                    closed(s, pos, c + 1, ')', DeclModel::Export(found))
                } else {
                    Parsed::Miss { at: c }
                }
            } else {
                Parsed::Miss { at: e }
            }
        },
    }
}

/// A declaration.
#[verifier::opaque]
pub open spec fn decl_at(s: Text, pos: nat) -> Parsed<DeclModel> {
    binding_at(s, pos).or(alias_at(s, pos)).or(export_at(s, pos))
}

/// The declarations from `pos` to the end of the text, or the first thing
/// that is wrong.
#[verifier::opaque]
pub open spec fn unit_at(s: Text, pos: nat) -> Result<Seq<DeclModel>, Problem>
    decreases rest(s, pos),
{
    let p = skip_space(s, pos);
    if p >= s.len() {
        Ok(Seq::empty())
    } else {
        match decl_at(s, p) {
            Parsed::Done { value, len } => if len == 0 {
                Err(Problem { kind: ErrorKind::Syntax, at: p })
            } else {
                match unit_at(s, p + len) {
                    Ok(more) => Ok(seq![value] + more),
                    Err(e) => Err(e),
                }
            },
            Parsed::Miss { at } => Err(Problem { kind: ErrorKind::Syntax, at }),
            Parsed::Fail { kind, at } => Err(Problem { kind, at }),
        }
    }
}

/// What a whole text is as a source unit.
pub open spec fn unit_of(text: Text) -> Result<Seq<DeclModel>, Problem> {
    unit_at(text, 0)
}

/// What a whole text is as a type.
pub open spec fn type_of(text: Text) -> Result<TypeModel, Problem> {
    type_at(text, 0).whole(text)
}

/// What a whole text is as a statement.
pub open spec fn stmt_of(text: Text) -> Result<StmtModel, Problem> {
    stmt_at(text, 0).whole(text)
}

/// What a whole text is as a scalar literal.
pub open spec fn literal_of(text: Text) -> Result<LiteralModel, Problem> {
    literal_at(text, skip_space(text, 0)).after(run(text, 0, CharClass::Space)).whole(text)
}

} // verus!
