//! The syntax tree that every layer of the grammar builds.

use vstd::prelude::*;

verus! {

/// A function: its generic parameters, if it declares any, its parameters in
/// order, its return type and its body.
#[derive(Debug, PartialEq)]
pub struct FnDef {
    pub generic_types: Option<Vec<String>>,
    pub parameters: Vec<(String, VarType)>,
    pub return_type: VarType,
    pub statement: Statement,
}

/// A named thing: `name` bound to `instruction`. Local and top-level bindings
/// share this one shape.
#[derive(Clone, Debug, PartialEq)]
pub struct DefVar<T> where T: Clone {
    pub name: String,
    pub instruction: T,
}

impl<T> DefVar<T> where T: Clone {
    /// The same binding with its payload moved to the heap.
    pub fn boxed(self) -> (r: DefVar<Box<T>>)
        ensures
            r.name == self.name,
            *r.instruction == self.instruction,
    {
        DefVar { name: self.name, instruction: Box::new(self.instruction) }
    }
}

/// An expression or statement.
#[derive(Debug, PartialEq)]
pub enum Statement {
    Ident(String),
    Literal(Literal),
    DoBlock(Vec<Statement>),
    Call(String, Vec<Statement>),
    DefVar(DefVar<Box<Statement>>),
    If(Box<Statement>, Box<Statement>),
    IfElse(Box<Statement>, Box<Statement>, Box<Statement>),
    /// A loop while a condition holds. The grammar has no form that yields
    /// it: `(for …)` is a call.
    For(Box<Statement>, Box<Statement>),
    /// A loop over a range, with the name of its variable. The grammar has no
    /// form that yields it.
    ForRange(String, Box<Statement>, Box<Statement>),
    GenericCall(String, Vec<String>, Vec<Statement>),
    /// `($ :field target)`
    GetField(String, Box<Statement>),
    /// `($ :field target value)`
    SetField(String, Box<Statement>, Box<Statement>),
    /// `($ [index] target)`
    GetIndexed(Box<Statement>, Box<Statement>),
    /// `($ [index] target value)`
    SetIndexed(Box<Statement>, Box<Statement>, Box<Statement>),
}

/// A type.
#[derive(Debug, PartialEq)]
pub enum VarType {
    Int8,
    Int16,
    Int32,
    Int64,
    Int128,
    UInt8,
    UInt16,
    UInt32,
    UInt64,
    UInt128,
    Float16,
    Float32,
    Float64,
    Float128,
    Bool,
    Void,
    IdentType(String),
    ArraySized(Box<VarType>, usize),
    ArrayUnsized(Box<VarType>),
    GenericArraySized(String, usize),
    GenericArrayUnsized(String),
    Data(Vec<(String, Vec<VarType>)>),
    GenericData(Vec<String>, Vec<(String, Vec<VarType>)>),
    Ptr(Box<VarType>),
    GenericPtr(String),
    Tuple(Vec<VarType>),
    GenericTuple(Vec<String>, Vec<VarType>),
    Struct(Vec<(String, VarType)>),
    GenericStruct(Vec<String>, Vec<(String, VarType)>),
    Fn(Vec<VarType>, Box<VarType>),
    FnWithVarArgs(Vec<VarType>, Box<VarType>),
    GenericFn(Vec<String>, Vec<VarType>, Box<VarType>),
    GenericFnWithVarArgs(Vec<String>, Vec<VarType>, Box<VarType>),
}

/// A literal value, scalar or composite.
#[derive(Debug, PartialEq)]
pub enum Literal {
    Int(i64),
    /// A decimal number, kept as it is written: digits, a point, digits.
    Float(String),
    Bool(bool),
    Char(char),
    String(String),
    Atom(String),
    Tuple(Vec<Statement>),
    Data(String, Vec<Statement>),
    Array(Vec<Statement>),
    Fn(Box<FnDef>),
}

/// What a top-level `def` binds its name to.
#[derive(Debug, PartialEq)]
pub enum TopLevelDef {
    Literal(Literal),
    Typed(VarType),
    FnDef(FnDef),
}

/// One declaration of a source unit.
#[derive(Debug, PartialEq)]
pub enum TopLevelStatement {
    TypeAlias(String, VarType),
    TopLevelDef(DefVar<TopLevelDef>),
    Use(String, String),
    UseHeader(String, String),
    ExportAll(),
    Export(Vec<String>),
}

} // verus!
