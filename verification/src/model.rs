//! Mathematical models of the syntax tree.
//!
//! Each tree type has a model in which text is a sequence of characters, a
//! vector is a sequence and a number is unbounded. `x@` is the model of `x`;
//! contracts speak of models only.

use vstd::prelude::*;
use crate::ast::{DefVar, FnDef, Literal, Statement, TopLevelDef, TopLevelStatement, VarType};

verus! {

/// Text, as a contract sees it.
pub type Text = Seq<char>;

/// Model of a [`VarType`].
pub enum TypeModel {
    Int8,
    Int16,
    Int32,
    Int64,
    Int128,
    UInt8,
    UInt16,
    UInt32,
    UInt64,
    UInt128,
    Float16,
    Float32,
    Float64,
    Float128,
    Bool,
    Void,
    IdentType(Text),
    ArraySized(Box<TypeModel>, nat),
    ArrayUnsized(Box<TypeModel>),
    GenericArraySized(Text, nat),
    GenericArrayUnsized(Text),
    Data(Seq<(Text, Seq<TypeModel>)>),
    GenericData(Seq<Text>, Seq<(Text, Seq<TypeModel>)>),
    Ptr(Box<TypeModel>),
    GenericPtr(Text),
    Tuple(Seq<TypeModel>),
    GenericTuple(Seq<Text>, Seq<TypeModel>),
    Struct(Seq<(Text, TypeModel)>),
    GenericStruct(Seq<Text>, Seq<(Text, TypeModel)>),
    Fn(Seq<TypeModel>, Box<TypeModel>),
    FnWithVarArgs(Seq<TypeModel>, Box<TypeModel>),
    GenericFn(Seq<Text>, Seq<TypeModel>, Box<TypeModel>),
    GenericFnWithVarArgs(Seq<Text>, Seq<TypeModel>, Box<TypeModel>),
}

/// Model of a [`Literal`].
pub enum LiteralModel {
    Int(int),
    Float(Text),
    Bool(bool),
    Char(char),
    String(Text),
    Atom(Text),
    Tuple(Seq<StmtModel>),
    Data(Text, Seq<StmtModel>),
    Array(Seq<StmtModel>),
    Fn(Box<FnModel>),
}

/// Model of a [`FnDef`].
pub struct FnModel {
    pub generic_types: Option<Seq<Text>>,
    pub parameters: Seq<(Text, TypeModel)>,
    pub return_type: TypeModel,
    pub statement: StmtModel,
}

/// Model of a [`Statement`].
pub enum StmtModel {
    Ident(Text),
    Literal(LiteralModel),
    DoBlock(Seq<StmtModel>),
    Call(Text, Seq<StmtModel>),
    DefVar(Text, Box<StmtModel>),
    If(Box<StmtModel>, Box<StmtModel>),
    IfElse(Box<StmtModel>, Box<StmtModel>, Box<StmtModel>),
    For(Box<StmtModel>, Box<StmtModel>),
    ForRange(Text, Box<StmtModel>, Box<StmtModel>),
    GenericCall(Text, Seq<Text>, Seq<StmtModel>),
    GetField(Text, Box<StmtModel>),
    SetField(Text, Box<StmtModel>, Box<StmtModel>),
    GetIndexed(Box<StmtModel>, Box<StmtModel>),
    SetIndexed(Box<StmtModel>, Box<StmtModel>, Box<StmtModel>),
}

/// Model of a [`TopLevelDef`].
pub enum PayloadModel {
    Literal(LiteralModel),
    Typed(TypeModel),
    FnDef(FnModel),
}

/// Model of a [`TopLevelStatement`].
pub enum DeclModel {
    TypeAlias(Text, TypeModel),
    TopLevelDef(Text, PayloadModel),
    Use(Text, Text),
    UseHeader(Text, Text),
    ExportAll,
    Export(Seq<Text>),
}

/// The texts of a vector of names.
pub open spec fn names(v: Vec<String>) -> Seq<Text> {
    Seq::new(v.len() as nat, |i: int| v[i]@)
}

/// The texts of an optional vector of names.
pub open spec fn opt_names(v: Option<Vec<String>>) -> Option<Seq<Text>> {
    match v {
        Some(v) => Some(names(v)),
        None => None,
    }
}

/// The models of a vector of types.
pub open spec fn type_models(v: Vec<VarType>) -> Seq<TypeModel>
    decreases v,
{
    Seq::new(
        v.len() as nat,
        |i: int|
            if 0 <= i < v.len() {
                v[i].tree()
            } else {
                TypeModel::Void
            },
    )
}

/// The models of a vector of named types: struct fields, function parameters.
pub open spec fn field_models(v: Vec<(String, VarType)>) -> Seq<(Text, TypeModel)>
    decreases v,
{
    Seq::new(
        v.len() as nat,
        |i: int|
            if 0 <= i < v.len() {
                (v[i].0@, v[i].1.tree())
            } else {
                (Seq::empty(), TypeModel::Void)
            },
    )
}

/// The models of the variants of a data type.
pub open spec fn variant_models(v: Vec<(String, Vec<VarType>)>) -> Seq<(Text, Seq<TypeModel>)>
    decreases v,
{
    Seq::new(
        v.len() as nat,
        |i: int|
            if 0 <= i < v.len() {
                (v[i].0@, type_models(v[i].1))
            } else {
                (Seq::empty(), Seq::empty())
            },
    )
}

impl VarType {
    /// The model of this type.
    #[verifier::opaque]
    pub open spec fn tree(&self) -> TypeModel
        decreases self,
    {
        match self {
            VarType::Int8 => TypeModel::Int8,
            VarType::Int16 => TypeModel::Int16,
            VarType::Int32 => TypeModel::Int32,
            VarType::Int64 => TypeModel::Int64,
            VarType::Int128 => TypeModel::Int128,
            VarType::UInt8 => TypeModel::UInt8,
            VarType::UInt16 => TypeModel::UInt16,
            VarType::UInt32 => TypeModel::UInt32,
            VarType::UInt64 => TypeModel::UInt64,
            VarType::UInt128 => TypeModel::UInt128,
            VarType::Float16 => TypeModel::Float16,
            VarType::Float32 => TypeModel::Float32,
            VarType::Float64 => TypeModel::Float64,
            VarType::Float128 => TypeModel::Float128,
            VarType::Bool => TypeModel::Bool,
            VarType::Void => TypeModel::Void,
            VarType::IdentType(n) => TypeModel::IdentType(n@),
            VarType::ArraySized(t, n) => TypeModel::ArraySized(Box::new(t.tree()), *n as nat),
            VarType::ArrayUnsized(t) => TypeModel::ArrayUnsized(Box::new(t.tree())),
            VarType::GenericArraySized(g, n) => TypeModel::GenericArraySized(g@, *n as nat),
            VarType::GenericArrayUnsized(g) => TypeModel::GenericArrayUnsized(g@),
            VarType::Data(v) => TypeModel::Data(variant_models(*v)),
            VarType::GenericData(g, v) => TypeModel::GenericData(names(*g), variant_models(*v)),
            VarType::Ptr(t) => TypeModel::Ptr(Box::new(t.tree())),
            VarType::GenericPtr(g) => TypeModel::GenericPtr(g@),
            VarType::Tuple(v) => TypeModel::Tuple(type_models(*v)),
            VarType::GenericTuple(g, v) => TypeModel::GenericTuple(names(*g), type_models(*v)),
            VarType::Struct(v) => TypeModel::Struct(field_models(*v)),
            VarType::GenericStruct(g, v) => TypeModel::GenericStruct(names(*g), field_models(*v)),
            VarType::Fn(a, r) => TypeModel::Fn(type_models(*a), Box::new(r.tree())),
            VarType::FnWithVarArgs(a, r) => TypeModel::FnWithVarArgs(
                type_models(*a),
                Box::new(r.tree()),
            ),
            VarType::GenericFn(g, a, r) => TypeModel::GenericFn(
                names(*g),
                type_models(*a),
                Box::new(r.tree()),
            ),
            VarType::GenericFnWithVarArgs(g, a, r) => TypeModel::GenericFnWithVarArgs(
                names(*g),
                type_models(*a),
                Box::new(r.tree()),
            ),
        }
    }
}

impl View for VarType {
    type V = TypeModel;

    open spec fn view(&self) -> TypeModel {
        self.tree()
    }
}

/// The models of a vector of statements.
pub open spec fn stmt_models(v: Vec<Statement>) -> Seq<StmtModel>
    decreases v,
{
    Seq::new(
        v.len() as nat,
        |i: int|
            if 0 <= i < v.len() {
                v[i].tree()
            } else {
                StmtModel::DoBlock(Seq::empty())
            },
    )
}

impl Statement {
    /// The model of this statement.
    #[verifier::opaque]
    pub open spec fn tree(&self) -> StmtModel
        decreases self,
    {
        match self {
            Statement::Ident(n) => StmtModel::Ident(n@),
            Statement::Literal(l) => StmtModel::Literal(l.tree()),
            Statement::DoBlock(v) => StmtModel::DoBlock(stmt_models(*v)),
            Statement::Call(n, v) => StmtModel::Call(n@, stmt_models(*v)),
            Statement::DefVar(d) => StmtModel::DefVar(d.name@, Box::new(d.instruction.tree())),
            Statement::If(c, t) => StmtModel::If(Box::new(c.tree()), Box::new(t.tree())),
            Statement::IfElse(c, t, e) => StmtModel::IfElse(
                Box::new(c.tree()),
                Box::new(t.tree()),
                Box::new(e.tree()),
            ),
            Statement::For(c, b) => StmtModel::For(Box::new(c.tree()), Box::new(b.tree())),
            Statement::ForRange(n, r, b) => StmtModel::ForRange(
                n@,
                Box::new(r.tree()),
                Box::new(b.tree()),
            ),
            Statement::GenericCall(n, g, v) => StmtModel::GenericCall(
                n@,
                names(*g),
                stmt_models(*v),
            ),
            Statement::GetField(f, t) => StmtModel::GetField(f@, Box::new(t.tree())),
            Statement::SetField(f, t, v) => StmtModel::SetField(
                f@,
                Box::new(t.tree()),
                Box::new(v.tree()),
            ),
            Statement::GetIndexed(i, t) => StmtModel::GetIndexed(
                Box::new(i.tree()),
                Box::new(t.tree()),
            ),
            Statement::SetIndexed(i, t, v) => StmtModel::SetIndexed(
                Box::new(i.tree()),
                Box::new(t.tree()),
                Box::new(v.tree()),
            ),
        }
    }
}

impl Literal {
    /// The model of this literal.
    #[verifier::opaque]
    pub open spec fn tree(&self) -> LiteralModel
        decreases self,
    {
        match self {
            Literal::Int(n) => LiteralModel::Int(*n as int),
            Literal::Float(t) => LiteralModel::Float(t@),
            Literal::Bool(b) => LiteralModel::Bool(*b),
            Literal::Char(c) => LiteralModel::Char(*c),
            Literal::String(t) => LiteralModel::String(t@),
            Literal::Atom(n) => LiteralModel::Atom(n@),
            Literal::Tuple(v) => LiteralModel::Tuple(stmt_models(*v)),
            Literal::Data(n, v) => LiteralModel::Data(n@, stmt_models(*v)),
            Literal::Array(v) => LiteralModel::Array(stmt_models(*v)),
            Literal::Fn(f) => LiteralModel::Fn(Box::new(f.tree())),
        }
    }
}

impl FnDef {
    /// The model of this function.
    #[verifier::opaque]
    pub open spec fn tree(&self) -> FnModel
        decreases self,
    {
        FnModel {
            generic_types: opt_names(self.generic_types),
            parameters: field_models(self.parameters),
            return_type: self.return_type.tree(),
            statement: self.statement.tree(),
        }
    }
}

impl View for Statement {
    type V = StmtModel;

    open spec fn view(&self) -> StmtModel {
        self.tree()
    }
}

impl View for Literal {
    type V = LiteralModel;

    open spec fn view(&self) -> LiteralModel {
        self.tree()
    }
}

impl View for FnDef {
    type V = FnModel;

    open spec fn view(&self) -> FnModel {
        self.tree()
    }
}

impl View for TopLevelDef {
    type V = PayloadModel;

    open spec fn view(&self) -> PayloadModel {
        match self {
            TopLevelDef::Literal(l) => PayloadModel::Literal(l.tree()),
            TopLevelDef::Typed(t) => PayloadModel::Typed(t.tree()),
            TopLevelDef::FnDef(f) => PayloadModel::FnDef(f.tree()),
        }
    }
}

impl View for TopLevelStatement {
    type V = DeclModel;

    open spec fn view(&self) -> DeclModel {
        match self {
            TopLevelStatement::TypeAlias(n, t) => DeclModel::TypeAlias(n@, t.tree()),
            TopLevelStatement::TopLevelDef(d) => DeclModel::TopLevelDef(d.name@, d.instruction@),
            TopLevelStatement::Use(n, p) => DeclModel::Use(n@, p@),
            TopLevelStatement::UseHeader(n, p) => DeclModel::UseHeader(n@, p@),
            TopLevelStatement::ExportAll() => DeclModel::ExportAll,
            TopLevelStatement::Export(v) => DeclModel::Export(names(*v)),
        }
    }
}

/// The models of a sequence of declarations.
pub open spec fn decl_models(v: Seq<TopLevelStatement>) -> Seq<DeclModel> {
    Seq::new(v.len(), |i: int| v[i]@)
}

/// A row that continues is the row with its next item, continued.
pub(crate) proof fn lemma_row<V>(first: Seq<V>, item: V, more: Seq<V>)
    ensures
        first + (seq![item] + more) == first.push(item) + more,
        first + Seq::<V>::empty() == first,
{
    assert(first + (seq![item] + more) =~= first.push(item) + more);
    assert(first + Seq::<V>::empty() =~= first);
}

/// One more name in the vector is one more text in its model.
pub(crate) proof fn lemma_names_push(v: Vec<String>, w: Vec<String>, item: String)
    requires
        w@ == v@.push(item),
    ensures
        names(w) == names(v).push(item@),
{
    assert(names(w) =~= names(v).push(item@));
}

/// One more type in the vector is one more model in its models.
pub(crate) proof fn lemma_types_push(v: Vec<VarType>, w: Vec<VarType>, item: VarType)
    requires
        w@ == v@.push(item),
    ensures
        type_models(w) == type_models(v).push(item@),
{
    reveal(VarType::tree);
    assert(type_models(w) =~= type_models(v).push(item@));
}

/// One more field in the vector is one more model in its models.
pub(crate) proof fn lemma_fields_push(
    v: Vec<(String, VarType)>,
    w: Vec<(String, VarType)>,
    item: (String, VarType),
)
    requires
        w@ == v@.push(item),
    ensures
        field_models(w) == field_models(v).push((item.0@, item.1@)),
{
    reveal(VarType::tree);
    assert(field_models(w) =~= field_models(v).push((item.0@, item.1@)));
}

/// One more variant in the vector is one more model in its models.
pub(crate) proof fn lemma_variants_push(
    v: Vec<(String, Vec<VarType>)>,
    w: Vec<(String, Vec<VarType>)>,
    item: (String, Vec<VarType>),
)
    requires
        w@ == v@.push(item),
    ensures
        variant_models(w) == variant_models(v).push((item.0@, type_models(item.1))),
{
    assert(variant_models(w) =~= variant_models(v).push((item.0@, type_models(item.1))));
}

/// One more statement in the vector is one more model in its models.
pub(crate) proof fn lemma_stmts_push(v: Vec<Statement>, w: Vec<Statement>, item: Statement)
    requires
        w@ == v@.push(item),
    ensures
        stmt_models(w) == stmt_models(v).push(item@),
{
    reveal(Statement::tree);
    assert(stmt_models(w) =~= stmt_models(v).push(item@));
}

} // verus!
