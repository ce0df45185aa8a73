//! What the transformer produces.

use vstd::prelude::*;
use crate::ast::{Statement, TopLevelStatement};
use crate::model::{decl_models, DeclModel, StmtModel, Text};

verus! {

/// One step of a chain: into a field, or to an element.
#[derive(Clone, Debug, PartialEq)]
pub enum AccessSegment {
    Field(String),
    Index(Box<Statement>),
}

/// A statement after the transform.
#[derive(Clone, Debug, PartialEq)]
pub enum TransformedStmt {
    /// A statement that the transform leaves alone.
    Orig(Statement),
    /// A chained access such as `a.b.c` or `a[0][i]`.
    ChainAccess { root: Box<Statement>, segments: Vec<AccessSegment> },
    /// A chained assignment such as `a.b.c = value`.
    ChainAssign { root: Box<Statement>, segments: Vec<AccessSegment>, value: Box<Statement> },
    /// The making of a closure from a hoisted function and what it captures.
    /// No pass produces it yet.
    MakeClosure { fn_name: String, env: Vec<Statement> },
}

/// The declarations of a source unit after the transform.
#[derive(Clone, Debug, PartialEq)]
pub struct Module {
    pub items: Vec<TopLevelStatement>,
}

/// Model of an [`AccessSegment`].
pub enum SegmentModel {
    Field(Text),
    Index(StmtModel),
}

impl View for AccessSegment {
    type V = SegmentModel;

    open spec fn view(&self) -> SegmentModel {
        match self {
            AccessSegment::Field(name) => SegmentModel::Field(name@),
            AccessSegment::Index(index) => SegmentModel::Index(index@),
        }
    }
}

/// The models of a sequence of segments.
pub open spec fn segment_models(v: Seq<AccessSegment>) -> Seq<SegmentModel> {
    Seq::new(v.len(), |i: int| v[i]@)
}

impl View for Module {
    type V = Seq<DeclModel>;

    open spec fn view(&self) -> Seq<DeclModel> {
        decl_models(self.items@)
    }
}

} // verus!
