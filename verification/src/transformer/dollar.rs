//! Chains of `$`: nested accesses, and an assignment around them, made flat.
//!
//! `($ :x ($ :y a))` reads field `x` of what `($ :y a)` gives. Its chain has
//! the root `a` and the segments `x`, `y`: the outermost access comes first.
//! Only accesses are taken apart. An assignment inside a chain is the root of
//! that chain, whatever it holds.

use vstd::prelude::*;
use crate::ast::Statement;
use crate::model::{lemma_row, StmtModel};
use super::ast::{AccessSegment, segment_models, SegmentModel};

verus! {

/// A chain of accesses from a root, or an assignment through such a chain.
#[derive(Clone, Debug, PartialEq)]
pub enum DollarChain {
    Access { root: Box<Statement>, segments: Vec<AccessSegment> },
    Assign { root: Box<Statement>, segments: Vec<AccessSegment>, value: Box<Statement> },
}

/// Model of a [`DollarChain`].
pub enum ChainModel {
    Access { root: StmtModel, segments: Seq<SegmentModel> },
    Assign { root: StmtModel, segments: Seq<SegmentModel>, value: StmtModel },
}

impl View for DollarChain {
    type V = ChainModel;

    open spec fn view(&self) -> ChainModel {
        match self {
            DollarChain::Access { root, segments } => ChainModel::Access {
                root: root@,
                segments: segment_models(segments@),
            },
            DollarChain::Assign { root, segments, value } => ChainModel::Assign {
                root: root@,
                segments: segment_models(segments@),
                value: value@,
            },
        }
    }
}

/// Whether `t` is one of the four forms of `$`.
pub open spec fn is_dollar(t: StmtModel) -> bool {
    t is GetField || t is GetIndexed || t is SetField || t is SetIndexed
}

/// What the accesses of `t` start from: the first statement under them that
/// is no access.
pub open spec fn chain_root(t: StmtModel) -> StmtModel
    decreases t,
{
    match t {
        StmtModel::GetField(_, target) => chain_root(*target),
        StmtModel::GetIndexed(_, target) => chain_root(*target),
        _ => t,
    }
}

/// The accesses of `t`, from the outermost to the one next to the root.
pub open spec fn chain_segments(t: StmtModel) -> Seq<SegmentModel>
    decreases t,
{
    match t {
        StmtModel::GetField(field, target) => seq![SegmentModel::Field(field)] + chain_segments(
            *target,
        ),
        StmtModel::GetIndexed(index, target) => seq![SegmentModel::Index(*index)] + chain_segments(
            *target,
        ),
        _ => Seq::empty(),
    }
}

/// The chain that `t` is, if `t` is a form of `$`.
pub open spec fn linearized(t: StmtModel) -> Option<ChainModel> {
    match t {
        StmtModel::GetField(field, target) => Some(
            ChainModel::Access {
                root: chain_root(*target),
                segments: seq![SegmentModel::Field(field)] + chain_segments(*target),
            },
        ),
        StmtModel::GetIndexed(index, target) => Some(
            ChainModel::Access {
                root: chain_root(*target),
                segments: seq![SegmentModel::Index(*index)] + chain_segments(*target),
            },
        ),
        StmtModel::SetField(field, target, value) => Some(
            ChainModel::Assign {
                root: chain_root(*target),
                segments: seq![SegmentModel::Field(field)] + chain_segments(*target),
                value: *value,
            },
        ),
        StmtModel::SetIndexed(index, target, value) => Some(
            ChainModel::Assign {
                root: chain_root(*target),
                segments: seq![SegmentModel::Index(*index)] + chain_segments(*target),
                value: *value,
            },
        ),
        _ => None,
    }
}

/// The model of an optional chain.
pub open spec fn opt_chain(r: Option<DollarChain>) -> Option<ChainModel> {
    match r {
        Some(chain) => Some(chain@),
        None => None,
    }
}

/// Takes the accesses of `stmt` apart: a copy of the root, and after the
/// given segments those of `stmt`, outermost first.
fn collect_segments(stmt: &Statement, first: Vec<AccessSegment>) -> (r: (
    Statement,
    Vec<AccessSegment>,
))
    ensures
        r.0@ == chain_root(stmt@),
        segment_models(r.1@) == segment_models(first@) + chain_segments(stmt@),
{
    let mut segments = first;
    let mut cur: &Statement = stmt;
    proof {
        assert(segment_models(first@) + chain_segments(stmt@) == segment_models(segments@)
            + chain_segments(cur@));
    }
    loop
        invariant
            chain_root(stmt@) == chain_root(cur@),
            segment_models(first@) + chain_segments(stmt@) == segment_models(segments@)
                + chain_segments(cur@),
        decreases cur,
    {
        reveal(Statement::tree);
        let ghost before = segments@;
        match cur {
            Statement::GetField(field, target) => {
                segments.push(AccessSegment::Field(field.clone()));
                proof {
                    let item = SegmentModel::Field(field@);
                    assert(segment_models(segments@) =~= segment_models(before).push(item));
                    lemma_row(segment_models(before), item, chain_segments(target@));
                }
                cur = target;
            },
            Statement::GetIndexed(index, target) => {
                segments.push(AccessSegment::Index(Box::new(index.duplicate())));
                proof {
                    let item = SegmentModel::Index(index@);
                    assert(segment_models(segments@) =~= segment_models(before).push(item));
                    lemma_row(segment_models(before), item, chain_segments(target@));
                }
                cur = target;
            },
            _ => {
                proof {
                    lemma_row(
                        segment_models(before),
                        SegmentModel::Field(Seq::empty()),
                        Seq::empty(),
                    );
                }
                return (cur.duplicate(), segments);
            },
        }
    }
}

fn first_segment(segment: AccessSegment) -> (r: Vec<AccessSegment>)
    ensures
        segment_models(r@) == seq![segment@],
{
    let mut first: Vec<AccessSegment> = Vec::new();
    first.push(segment);
    assert(segment_models(first@) =~= seq![segment@]);
    first
}

/// Recognises a chain of nested `$` accesses, or an assignment through one,
/// and makes it flat. A statement that is no form of `$` gives `None`.
pub fn try_linearize(stmt: &Statement) -> (r: Option<DollarChain>)
    ensures
        opt_chain(r) == linearized(stmt@),
        r is Some <==> is_dollar(stmt@),
{
    reveal(Statement::tree);
    match stmt {
        Statement::GetField(field, target) => {
            let first = first_segment(AccessSegment::Field(field.clone()));
            let (root, segments) = collect_segments(target, first);
            Some(DollarChain::Access { root: Box::new(root), segments })
        },
        Statement::GetIndexed(index, target) => {
            let first = first_segment(AccessSegment::Index(Box::new(index.duplicate())));
            let (root, segments) = collect_segments(target, first);
            Some(DollarChain::Access { root: Box::new(root), segments })
        },
        Statement::SetField(field, target, value) => {
            let first = first_segment(AccessSegment::Field(field.clone()));
            let (root, segments) = collect_segments(target, first);
            Some(
                DollarChain::Assign {
                    root: Box::new(root),
                    segments,
                    value: Box::new(value.duplicate()),
                },
            )
        },
        Statement::SetIndexed(index, target, value) => {
            let first = first_segment(AccessSegment::Index(Box::new(index.duplicate())));
            let (root, segments) = collect_segments(target, first);
            Some(
                DollarChain::Assign {
                    root: Box::new(root),
                    segments,
                    value: Box::new(value.duplicate()),
                },
            )
        },
        _ => None,
    }
}

} // verus!
