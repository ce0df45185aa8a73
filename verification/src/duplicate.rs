//! Deep copies of the syntax tree. A copy has the model of its original.

use vstd::prelude::*;
use crate::ast::{DefVar, FnDef, Literal, Statement, TopLevelDef, TopLevelStatement, VarType};
use crate::model::{field_models, names, opt_names, stmt_models, type_models, variant_models};

verus! {

/// Copies a vector of names.
pub(crate) fn copy_names(v: &Vec<String>) -> (r: Vec<String>)
    ensures
        names(r) == names(*v),
{
    let mut out: Vec<String> = Vec::new();
    let mut i: usize = 0;
    while i < v.len()
        invariant
            i <= v.len(),
            out.len() == i,
            forall|j: int| 0 <= j < i ==> out[j]@ == v[j]@,
        decreases v.len() - i,
    {
        out.push(v[i].clone());
        i += 1;
    }
    assert(names(out) =~= names(*v));
    out
}

fn copy_opt_names(v: &Option<Vec<String>>) -> (r: Option<Vec<String>>)
    ensures
        opt_names(r) == opt_names(*v),
{
    match v {
        Some(v) => Some(copy_names(v)),
        None => None,
    }
}

fn copy_types(v: &Vec<VarType>) -> (r: Vec<VarType>)
    ensures
        type_models(r) == type_models(*v),
    decreases v,
{
    reveal(VarType::tree);
    let mut out: Vec<VarType> = Vec::new();
    let mut i: usize = 0;
    while i < v.len()
        invariant
            i <= v.len(),
            out.len() == i,
            forall|j: int| 0 <= j < i ==> out[j]@ == v[j]@,
        decreases v.len() - i,
    {
        out.push(v[i].duplicate());
        i += 1;
    }
    assert(type_models(out) =~= type_models(*v));
    out
}

fn copy_fields(v: &Vec<(String, VarType)>) -> (r: Vec<(String, VarType)>)
    ensures
        field_models(r) == field_models(*v),
    decreases v,
{
    reveal(VarType::tree);
    let mut out: Vec<(String, VarType)> = Vec::new();
    let mut i: usize = 0;
    while i < v.len()
        invariant
            i <= v.len(),
            out.len() == i,
            forall|j: int| 0 <= j < i ==> out[j].0@ == v[j].0@ && out[j].1@ == v[j].1@,
        decreases v.len() - i,
    {
        out.push((v[i].0.clone(), v[i].1.duplicate()));
        i += 1;
    }
    assert(field_models(out) =~= field_models(*v));
    out
}

fn copy_variants(v: &Vec<(String, Vec<VarType>)>) -> (r: Vec<(String, Vec<VarType>)>)
    ensures
        variant_models(r) == variant_models(*v),
    decreases v,
{
    reveal(VarType::tree);
    let mut out: Vec<(String, Vec<VarType>)> = Vec::new();
    let mut i: usize = 0;
    while i < v.len()
        invariant
            i <= v.len(),
            out.len() == i,
            forall|j: int|
                0 <= j < i ==> out[j].0@ == v[j].0@ && type_models(out[j].1) == type_models(
                    v[j].1,
                ),
        decreases v.len() - i,
    {
        out.push((v[i].0.clone(), copy_types(&v[i].1)));
        i += 1;
    }
    assert(variant_models(out) =~= variant_models(*v));
    out
}

impl VarType {
    /// A deep copy of this type.
    pub fn duplicate(&self) -> (r: VarType)
        ensures
            r@ == self@,
        decreases self,
    {
        reveal(VarType::tree);
        match self {
            VarType::Int8 => VarType::Int8,
            VarType::Int16 => VarType::Int16,
            VarType::Int32 => VarType::Int32,
            VarType::Int64 => VarType::Int64,
            VarType::Int128 => VarType::Int128,
            VarType::UInt8 => VarType::UInt8,
            VarType::UInt16 => VarType::UInt16,
            VarType::UInt32 => VarType::UInt32,
            VarType::UInt64 => VarType::UInt64,
            VarType::UInt128 => VarType::UInt128,
            VarType::Float16 => VarType::Float16,
            VarType::Float32 => VarType::Float32,
            VarType::Float64 => VarType::Float64,
            VarType::Float128 => VarType::Float128,
            VarType::Bool => VarType::Bool,
            VarType::Void => VarType::Void,
            VarType::IdentType(n) => VarType::IdentType(n.clone()),
            VarType::ArraySized(t, n) => VarType::ArraySized(Box::new(t.duplicate()), *n),
            VarType::ArrayUnsized(t) => VarType::ArrayUnsized(Box::new(t.duplicate())),
            VarType::GenericArraySized(g, n) => VarType::GenericArraySized(g.clone(), *n),
            VarType::GenericArrayUnsized(g) => VarType::GenericArrayUnsized(g.clone()),
            VarType::Data(v) => VarType::Data(copy_variants(v)),
            VarType::GenericData(g, v) => VarType::GenericData(copy_names(g), copy_variants(v)),
            VarType::Ptr(t) => VarType::Ptr(Box::new(t.duplicate())),
            VarType::GenericPtr(g) => VarType::GenericPtr(g.clone()),
            VarType::Tuple(v) => VarType::Tuple(copy_types(v)),
            VarType::GenericTuple(g, v) => VarType::GenericTuple(copy_names(g), copy_types(v)),
            VarType::Struct(v) => VarType::Struct(copy_fields(v)),
            VarType::GenericStruct(g, v) => VarType::GenericStruct(copy_names(g), copy_fields(v)),
            VarType::Fn(a, r) => VarType::Fn(copy_types(a), Box::new(r.duplicate())),
            VarType::FnWithVarArgs(a, r) => VarType::FnWithVarArgs(
                copy_types(a),
                Box::new(r.duplicate()),
            ),
            VarType::GenericFn(g, a, r) => VarType::GenericFn(
                copy_names(g),
                copy_types(a),
                Box::new(r.duplicate()),
            ),
            VarType::GenericFnWithVarArgs(g, a, r) => VarType::GenericFnWithVarArgs(
                copy_names(g),
                copy_types(a),
                Box::new(r.duplicate()),
            ),
        }
    }
}

fn copy_stmts(v: &Vec<Statement>) -> (r: Vec<Statement>)
    ensures
        stmt_models(r) == stmt_models(*v),
    decreases v,
{
    reveal(Statement::tree);
    let mut out: Vec<Statement> = Vec::new();
    let mut i: usize = 0;
    while i < v.len()
        invariant
            i <= v.len(),
            out.len() == i,
            forall|j: int| 0 <= j < i ==> out[j]@ == v[j]@,
        decreases v.len() - i,
    {
        out.push(v[i].duplicate());
        i += 1;
    }
    assert(stmt_models(out) =~= stmt_models(*v));
    out
}

impl Statement {
    /// A deep copy of this statement.
    pub fn duplicate(&self) -> (r: Statement)
        ensures
            r@ == self@,
        decreases self,
    {
        reveal(Statement::tree);
        reveal(Literal::tree);
        match self {
            Statement::Ident(n) => Statement::Ident(n.clone()),
            Statement::Literal(l) => Statement::Literal(l.duplicate()),
            Statement::DoBlock(v) => Statement::DoBlock(copy_stmts(v)),
            Statement::Call(n, v) => Statement::Call(n.clone(), copy_stmts(v)),
            Statement::DefVar(d) => Statement::DefVar(
                DefVar { name: d.name.clone(), instruction: Box::new(d.instruction.duplicate()) },
            ),
            Statement::If(c, t) => Statement::If(Box::new(c.duplicate()), Box::new(t.duplicate())),
            Statement::IfElse(c, t, e) => Statement::IfElse(
                Box::new(c.duplicate()),
                Box::new(t.duplicate()),
                Box::new(e.duplicate()),
            ),
            Statement::For(c, b) => Statement::For(
                Box::new(c.duplicate()),
                Box::new(b.duplicate()),
            ),
            Statement::ForRange(n, r, b) => Statement::ForRange(
                n.clone(),
                Box::new(r.duplicate()),
                Box::new(b.duplicate()),
            ),
            Statement::GenericCall(n, g, v) => Statement::GenericCall(
                n.clone(),
                copy_names(g),
                copy_stmts(v),
            ),
            Statement::GetField(f, t) => Statement::GetField(f.clone(), Box::new(t.duplicate())),
            Statement::SetField(f, t, v) => Statement::SetField(
                f.clone(),
                Box::new(t.duplicate()),
                Box::new(v.duplicate()),
            ),
            Statement::GetIndexed(i, t) => Statement::GetIndexed(
                Box::new(i.duplicate()),
                Box::new(t.duplicate()),
            ),
            Statement::SetIndexed(i, t, v) => Statement::SetIndexed(
                Box::new(i.duplicate()),
                Box::new(t.duplicate()),
                Box::new(v.duplicate()),
            ),
        }
    }
}

impl Literal {
    /// A deep copy of this literal.
    pub fn duplicate(&self) -> (r: Literal)
        ensures
            r@ == self@,
        decreases self,
    {
        reveal(Literal::tree);
        reveal(Statement::tree);
        reveal(FnDef::tree);
        match self {
            Literal::Int(n) => Literal::Int(*n),
            Literal::Float(t) => Literal::Float(t.clone()),
            Literal::Bool(b) => Literal::Bool(*b),
            Literal::Char(c) => Literal::Char(*c),
            Literal::String(t) => Literal::String(t.clone()),
            Literal::Atom(n) => Literal::Atom(n.clone()),
            Literal::Tuple(v) => Literal::Tuple(copy_stmts(v)),
            Literal::Data(n, v) => Literal::Data(n.clone(), copy_stmts(v)),
            Literal::Array(v) => Literal::Array(copy_stmts(v)),
            Literal::Fn(f) => Literal::Fn(Box::new(f.duplicate())),
        }
    }
}

impl FnDef {
    /// A deep copy of this function.
    pub fn duplicate(&self) -> (r: FnDef)
        ensures
            r@ == self@,
        decreases self,
    {
        reveal(FnDef::tree);
        reveal(Statement::tree);
        reveal(VarType::tree);
        FnDef {
            generic_types: copy_opt_names(&self.generic_types),
            parameters: copy_fields(&self.parameters),
            return_type: self.return_type.duplicate(),
            statement: self.statement.duplicate(),
        }
    }
}

impl TopLevelDef {
    /// A deep copy of this payload.
    pub fn duplicate(&self) -> (r: TopLevelDef)
        ensures
            r@ == self@,
    {
        match self {
            TopLevelDef::Literal(l) => TopLevelDef::Literal(l.duplicate()),
            TopLevelDef::Typed(t) => TopLevelDef::Typed(t.duplicate()),
            TopLevelDef::FnDef(f) => TopLevelDef::FnDef(f.duplicate()),
        }
    }
}

impl TopLevelStatement {
    /// A deep copy of this declaration.
    pub fn duplicate(&self) -> (r: TopLevelStatement)
        ensures
            r@ == self@,
    {
        match self {
            TopLevelStatement::TypeAlias(n, t) => TopLevelStatement::TypeAlias(
                n.clone(),
                t.duplicate(),
            ),
            TopLevelStatement::TopLevelDef(d) => TopLevelStatement::TopLevelDef(
                DefVar { name: d.name.clone(), instruction: d.instruction.duplicate() },
            ),
            TopLevelStatement::Use(n, p) => TopLevelStatement::Use(n.clone(), p.clone()),
            TopLevelStatement::UseHeader(n, p) => TopLevelStatement::UseHeader(
                n.clone(),
                p.clone(),
            ),
            TopLevelStatement::ExportAll() => TopLevelStatement::ExportAll(),
            TopLevelStatement::Export(v) => TopLevelStatement::Export(copy_names(v)),
        }
    }
}

impl Clone for VarType {
    fn clone(&self) -> (r: Self)
        ensures
            r@ == self@,
    {
        self.duplicate()
    }
}

impl Clone for Statement {
    fn clone(&self) -> (r: Self)
        ensures
            r@ == self@,
    {
        self.duplicate()
    }
}

impl Clone for Literal {
    fn clone(&self) -> (r: Self)
        ensures
            r@ == self@,
    {
        self.duplicate()
    }
}

impl Clone for FnDef {
    fn clone(&self) -> (r: Self)
        ensures
            r@ == self@,
    {
        self.duplicate()
    }
}

impl Clone for TopLevelDef {
    fn clone(&self) -> (r: Self)
        ensures
            r@ == self@,
    {
        self.duplicate()
    }
}

impl Clone for TopLevelStatement {
    fn clone(&self) -> (r: Self)
        ensures
            r@ == self@,
    {
        self.duplicate()
    }
}

} // verus!
