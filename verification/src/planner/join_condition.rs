//! Classifying a predicate by the side of a join that can evaluate it.

use crate::planner::plans::scalars_view;
use crate::planner::plans::ComparisonOp;
use crate::planner::plans::Scalar;
use crate::planner::plans::ScalarView;
use crate::planner::rel_expr::RelationalProperty;
use crate::planner::rel_expr::RelationalPropertyView;
use crate::planner::scalar::has_subquery;
use crate::planner::scalar::used_columns;
use vstd::prelude::*;

verus! {

/// A predicate between the two sides of a join, by what it needs.
pub enum JoinCondition<'a> {
    /// The left side alone can evaluate the predicate.
    Left(&'a Scalar),
    /// The right side alone can evaluate the predicate.
    Right(&'a Scalar),
    /// An equality with one operand for each side.
    Both { left: &'a Scalar, right: &'a Scalar },
    /// Anything else.
    Other(&'a Scalar),
}

pub ghost enum JoinConditionView {
    Left(ScalarView),
    Right(ScalarView),
    Both { left: ScalarView, right: ScalarView },
    Other(ScalarView),
}

impl<'a> View for JoinCondition<'a> {
    type V = JoinConditionView;

    open spec fn view(&self) -> JoinConditionView {
        match self {
            JoinCondition::Left(s) => JoinConditionView::Left(s@),
            JoinCondition::Right(s) => JoinConditionView::Right(s@),
            JoinCondition::Both { left, right } => JoinConditionView::Both { left: left@, right: right@ },
            JoinCondition::Other(s) => JoinConditionView::Other(s@),
        }
    }
}

/// Whether the output of a plan with property `prop` holds every column
/// that `scalar` uses.
pub open spec fn satisfied_by(scalar: ScalarView, prop: RelationalPropertyView) -> bool {
    used_columns(scalar).subset_of(prop.output_columns)
}

/// The class of a predicate between a left and a right side.
///
/// A predicate with a subquery is `Other`. One that the left side satisfies
/// is `Left`, also where the right side would satisfy it too; one that only
/// the right side satisfies is `Right`. An equality whose operands are
/// satisfied by one side each is `Both`, with the operands in the order of
/// the sides. Whatever is left is `Other`.
pub open spec fn classify(
    scalar: ScalarView,
    left_prop: RelationalPropertyView,
    right_prop: RelationalPropertyView,
) -> JoinConditionView {
    if has_subquery(scalar) {
        JoinConditionView::Other(scalar)
    } else if satisfied_by(scalar, left_prop) {
        JoinConditionView::Left(scalar)
    } else if satisfied_by(scalar, right_prop) {
        JoinConditionView::Right(scalar)
    } else {
        match scalar {
            ScalarView::ComparisonExpr { op: ComparisonOp::Equal, left, right, .. } => {
                if satisfied_by(*left, left_prop) && satisfied_by(*right, right_prop) {
                    JoinConditionView::Both { left: *left, right: *right }
                } else if satisfied_by(*right, left_prop) && satisfied_by(*left, right_prop) {
                    JoinConditionView::Both { left: *right, right: *left }
                } else {
                    JoinConditionView::Other(scalar)
                }
            },
            _ => JoinConditionView::Other(scalar),
        }
    }
}

/// Whether a scalar expression holds a subquery anywhere in it.
pub fn contains_subquery(s: &Scalar) -> (r: bool)
    ensures
        r == has_subquery(s@),
    decreases s,
{
    match s {
        Scalar::BoundColumnRef { .. } => false,
        Scalar::ConstantExpr { .. } => false,
        Scalar::AndExpr { left, right, .. } => contains_subquery(left) || contains_subquery(right),
        Scalar::OrExpr { left, right, .. } => contains_subquery(left) || contains_subquery(right),
        Scalar::ComparisonExpr { left, right, .. } => contains_subquery(left) || contains_subquery(right),
        Scalar::AggregateFunction { args, .. } => {
            let r = any_contains_subquery(args);
            assert(s@->AggregateFunction_args == scalars_view(args@));
            assert(r == has_subquery(s@));
            r
        },
        Scalar::FunctionCall { arguments, .. } => {
            let r = any_contains_subquery(arguments);
            assert(s@->FunctionCall_arguments == scalars_view(arguments@));
            assert(r == has_subquery(s@));
            r
        },
        Scalar::CastExpr { argument, .. } => contains_subquery(argument),
        Scalar::SubqueryExpr(_) => {
            assert(s@ is SubqueryExpr);
            true
        },
    }
}

/// Whether any expression of `v` holds a subquery.
pub fn any_contains_subquery(v: &Vec<Scalar>) -> (r: bool)
    ensures
        r == exists|i: int| 0 <= i < v.len() && has_subquery(scalars_view(v@)[i]),
    decreases v,
{
    let mut i: usize = 0;
    while i < v.len()
        invariant
            i <= v.len(),
            forall|j: int| 0 <= j < i ==> !has_subquery(scalars_view(v@)[j]),
        decreases v.len() - i,
    {
        if contains_subquery(&v[i]) {
            assert(has_subquery(scalars_view(v@)[i as int]));
            return true;
        }
        i += 1;
    }
    false
}

fn is_satisfied_by(scalar: &Scalar, prop: &RelationalProperty) -> (r: bool)
    ensures
        r == satisfied_by(scalar@, prop@),
{
    scalar.used_columns().is_subset(&prop.output_columns)
}

impl<'a> JoinCondition<'a> {
    /// Classifies `scalar` between a left side with property `left_prop` and
    /// a right side with property `right_prop`.
    pub fn new(scalar: &'a Scalar, left_prop: &RelationalProperty, right_prop: &RelationalProperty) -> (r:
        JoinCondition<'a>)
        ensures
            r@ == classify(scalar@, left_prop@, right_prop@),
    {
        if contains_subquery(scalar) {
            return JoinCondition::Other(scalar);
        }
        if is_satisfied_by(scalar, left_prop) {
            return JoinCondition::Left(scalar);
        }
        if is_satisfied_by(scalar, right_prop) {
            return JoinCondition::Right(scalar);
        }
        match scalar {
            Scalar::ComparisonExpr { op: ComparisonOp::Equal, left, right, .. } => {
                if is_satisfied_by(left, left_prop) && is_satisfied_by(right, right_prop) {
                    JoinCondition::Both { left, right }
                } else if is_satisfied_by(right, left_prop) && is_satisfied_by(left, right_prop) {
                    JoinCondition::Both { left: right, right: left }
                } else {
                    JoinCondition::Other(scalar)
                }
            },
            _ => JoinCondition::Other(scalar),
        }
    }
}

} // verus!
