//! Turning a correlated `EXISTS` or `NOT EXISTS` subquery of a simple shape
//! into a semi or anti join.

use crate::datavalues::data_type::merge_types;
use crate::datavalues::data_type::DataType;
use crate::error::ErrorCode;
use crate::error::ErrorKind;
use crate::planner::column_set::IndexType;
use crate::optimizer::subquery_rewriter::SubqueryRewriter;
use crate::optimizer::unnest::rewrite_plan;
use crate::planner::join_condition::classify;
use crate::planner::metadata::Metadata;
use crate::planner::join_condition::JoinCondition;
use crate::planner::join_condition::JoinConditionView;
use crate::planner::plans::scalars_view;
use crate::planner::plans::JoinType;
use crate::planner::plans::RelOp;
use crate::planner::plans::RelOperator;
use crate::planner::plans::RelOperatorView;
use crate::planner::plans::SExpr;
use crate::planner::plans::SExprView;
use crate::planner::plans::Scalar;
use crate::planner::plans::ScalarView;
use crate::planner::plans::SubqueryExpr;
use crate::planner::plans::SubqueryExprView;
use crate::planner::plans::SubqueryType;
use crate::planner::rel_expr::derive_child;
use crate::planner::rel_expr::derive_prop;
use crate::planner::rel_expr::RelExpr;
use crate::planner::rel_expr::RelationalProperty;
use crate::planner::rel_expr::RelationalPropertyView;
use crate::planner::s_expr::matches_pattern;
use crate::planner::scalar::scalar_type;
use crate::planner::scalar::scalars_used_columns;
use crate::planner::scalar::used_columns_of;
use crate::planner::scalar::wrap_cast_if_needed;
use crate::planner::scalar::wrap_cast_spec;
use vstd::prelude::*;

verus! {

/// A pattern node that stands for an operator of kind `plan_type` over the
/// given inputs.
pub open spec fn pattern_node(plan_type: RelOp, children: Seq<SExprView>) -> SExprView {
    SExprView { plan: RelOperatorView::Pattern { plan_type }, children }
}

/// The shape of the subqueries that are decorrelated: a projection of
/// computed columns over a filter of one table.
pub open spec fn simple_subquery_pattern() -> SExprView {
    pattern_node(
        RelOp::Project,
        seq![
            pattern_node(
                RelOp::EvalScalar,
                seq![pattern_node(RelOp::Filter, seq![pattern_node(RelOp::LogicalGet, Seq::empty())])],
            ),
        ],
    )
}

/// The predicates of a filter, sorted by the part they play in the join.
pub ghost struct Conditions {
    /// The operands for the outer side of the equalities between the sides.
    pub left_conditions: Seq<ScalarView>,
    /// The operands for the subquery's side of those equalities.
    pub right_conditions: Seq<ScalarView>,
    /// The predicates that neither side can evaluate alone and that are no
    /// such equality.
    pub other_conditions: Seq<ScalarView>,
    /// The predicates that the outer side can evaluate alone.
    pub left_filters: Seq<ScalarView>,
    /// The predicates that the subquery's side can evaluate alone.
    pub right_filters: Seq<ScalarView>,
}

pub open spec fn no_conditions() -> Conditions {
    Conditions {
        left_conditions: Seq::empty(),
        right_conditions: Seq::empty(),
        other_conditions: Seq::empty(),
        left_filters: Seq::empty(),
        right_filters: Seq::empty(),
    }
}

/// `acc` with the predicate `pred` put where its class says. The operands of
/// an equality between the sides are cast to the common super type of their
/// types; `None` where they have none.
pub open spec fn add_condition(
    acc: Conditions,
    pred: ScalarView,
    left_prop: RelationalPropertyView,
    right_prop: RelationalPropertyView,
) -> Option<Conditions> {
    match classify(pred, left_prop, right_prop) {
        JoinConditionView::Left(f) => Some(Conditions { left_filters: acc.left_filters.push(f), ..acc }),
        JoinConditionView::Right(f) => Some(Conditions { right_filters: acc.right_filters.push(f), ..acc }),
        JoinConditionView::Other(p) => Some(
            Conditions { other_conditions: acc.other_conditions.push(p), ..acc },
        ),
        JoinConditionView::Both { left, right } => match DataType::merge_spec(
            scalar_type(left),
            scalar_type(right),
        ) {
            Some(t) => Some(
                Conditions {
                    left_conditions: acc.left_conditions.push(wrap_cast_spec(left, t)),
                    right_conditions: acc.right_conditions.push(wrap_cast_spec(right, t)),
                    ..acc
                },
            ),
            None => None,
        },
    }
}

/// The predicates `preds` sorted by class, each list in the order of
/// `preds`. `None` where the operands of an equality between the sides have
/// no common super type.
pub open spec fn split_conditions(
    preds: Seq<ScalarView>,
    left_prop: RelationalPropertyView,
    right_prop: RelationalPropertyView,
) -> Option<Conditions>
    decreases preds.len(),
{
    if preds.len() == 0 {
        Some(no_conditions())
    } else {
        match split_conditions(preds.drop_last(), left_prop, right_prop) {
            Some(acc) => add_condition(acc, preds.last(), left_prop, right_prop),
            None => None,
        }
    }
}

/// `child` under a filter with the predicates `filters`, or `child` itself
/// where there are none.
pub open spec fn with_filters(filters: Seq<ScalarView>, child: SExprView) -> SExprView {
    if filters.len() == 0 {
        child
    } else {
        SExprView { plan: RelOperatorView::Filter { predicates: filters, is_having: false }, children: seq![child] }
    }
}

/// The join that replaces the subquery.
///
/// Its left input is `input` under the predicates that the outer side can
/// evaluate alone. Its right input is the subquery without its filter,
/// under the predicates that the subquery's side can evaluate alone, and
/// projected to the columns that the join reads from it: those that the
/// right-hand operands and the other predicates use and the outer side does
/// not produce.
pub open spec fn decorrelated_join(
    input: SExprView,
    input_prop: RelationalPropertyView,
    subquery: SubqueryExprView,
    conds: Conditions,
) -> SExprView {
    let project = *subquery.subquery;
    let eval = project.children[0];
    let get = eval.children[0].children[0];
    let base = SExprView {
        plan: project.plan,
        children: seq![
            SExprView {
                plan: eval.plan,
                children: seq![SExprView { plan: get.plan, children: Seq::empty() }],
            },
        ],
    };
    let used = used_columns_of(conds.right_conditions).union(used_columns_of(conds.other_conditions)).difference(
        input_prop.output_columns,
    );
    SExprView {
        plan: RelOperatorView::LogicalInnerJoin {
            left_conditions: conds.left_conditions,
            right_conditions: conds.right_conditions,
            other_conditions: conds.other_conditions,
            join_type: if subquery.typ == SubqueryType::Exists {
                JoinType::Semi
            } else {
                JoinType::Anti
            },
            marker_index: None,
        },
        children: seq![
            with_filters(conds.left_filters, input),
            SExprView {
                plan: RelOperatorView::Project { columns: used },
                children: seq![with_filters(conds.right_filters, base)],
            },
        ],
    }
}

/// What decorrelation makes of a subquery.
pub ghost enum Decorrelation {
    /// The subquery is left as it is.
    Declined,
    /// The rewrite fails with an error of this kind.
    Failed(ErrorKind),
    /// The subquery becomes this join.
    Rewritten(SExprView),
}

/// What decorrelating `subquery` over `input` gives.
///
/// An uncorrelated subquery, one that is not of the simple shape, and one
/// that is neither `EXISTS` nor `NOT EXISTS` are declined. A plan without a
/// relational property is a `LogicalError`, operands without a common super
/// type a `BadDataValueType` error.
pub open spec fn decorrelate(input: SExprView, subquery: SubqueryExprView) -> Decorrelation {
    if subquery.outer_columns == Set::<IndexType>::empty() {
        Decorrelation::Declined
    } else if !matches_pattern(*subquery.subquery, simple_subquery_pattern()) {
        Decorrelation::Declined
    } else {
        let filter = subquery.subquery.children[0].children[0];
        match (filter.plan, derive_prop(filter), derive_child(filter, 0), derive_prop(input)) {
            (
                RelOperatorView::Filter { predicates, .. },
                Some(filter_prop),
                Some(filter_child_prop),
                Some(input_prop),
            ) => {
                if filter_child_prop.outer_columns != Set::<IndexType>::empty() {
                    Decorrelation::Declined
                } else {
                    match split_conditions(predicates, input_prop, filter_prop) {
                        None => Decorrelation::Failed(ErrorKind::BadDataValueType),
                        Some(conds) => {
                            if subquery.typ == SubqueryType::Exists || subquery.typ == SubqueryType::NotExists {
                                Decorrelation::Rewritten(decorrelated_join(input, input_prop, subquery, conds))
                            } else {
                                Decorrelation::Declined
                            }
                        },
                    }
                }
            },
            _ => Decorrelation::Failed(ErrorKind::LogicalError),
        }
    }
}

/// Whether the outcome `r` of a rewrite is what `expected` says.
pub open spec fn is_decorrelation(r: Result<Option<SExpr>, ErrorCode>, expected: Decorrelation) -> bool {
    match expected {
        Decorrelation::Declined => r is Ok && r->Ok_0 is None,
        Decorrelation::Failed(kind) => r is Err && r->Err_0.kind == kind,
        Decorrelation::Rewritten(e) => r is Ok && r->Ok_0 is Some && r->Ok_0->Some_0@ == e,
    }
}

proof fn lemma_scalars_view_push(v: Seq<Scalar>, x: Scalar)
    ensures
        scalars_view(v.push(x)) == scalars_view(v).push(x@),
{
    assert(scalars_view(v.push(x)) =~= scalars_view(v).push(x@));
}

fn simple_pattern() -> (r: SExpr)
    ensures
        r@ == simple_subquery_pattern(),
{
    let get = SExpr::create_leaf(RelOperator::Pattern { plan_type: RelOp::LogicalGet });
    let filter = SExpr::create_unary(RelOperator::Pattern { plan_type: RelOp::Filter }, get);
    let eval = SExpr::create_unary(RelOperator::Pattern { plan_type: RelOp::EvalScalar }, filter);
    SExpr::create_unary(RelOperator::Pattern { plan_type: RelOp::Project }, eval)
}

fn filtered(filters: Vec<Scalar>, child: SExpr) -> (r: SExpr)
    ensures
        r@ == with_filters(scalars_view(filters@), child@),
{
    if filters.len() == 0 {
        child
    } else {
        SExpr::create_unary(RelOperator::Filter { predicates: filters, is_having: false }, child)
    }
}

/// The predicates of a filter, sorted by the part they play in the join.
pub struct SplitPredicates {
    pub left_conditions: Vec<Scalar>,
    pub right_conditions: Vec<Scalar>,
    pub other_conditions: Vec<Scalar>,
    pub left_filters: Vec<Scalar>,
    pub right_filters: Vec<Scalar>,
}

impl View for SplitPredicates {
    type V = Conditions;

    open spec fn view(&self) -> Conditions {
        Conditions {
            left_conditions: scalars_view(self.left_conditions@),
            right_conditions: scalars_view(self.right_conditions@),
            other_conditions: scalars_view(self.other_conditions@),
            left_filters: scalars_view(self.left_filters@),
            right_filters: scalars_view(self.right_filters@),
        }
    }
}

/// Sorts the predicates of a filter by class, in their order, between a
/// left side with property `left_prop` and a right side with property
/// `right_prop`.
///
/// Fails with a `BadDataValueType` error exactly where the operands of an
/// equality between the sides have no common super type.
pub fn split_predicates(
    predicates: &Vec<Scalar>,
    left_prop: &RelationalProperty,
    right_prop: &RelationalProperty,
) -> (r: Result<SplitPredicates, ErrorCode>)
    ensures
        match split_conditions(scalars_view(predicates@), left_prop@, right_prop@) {
            Some(c) => r is Ok && r->Ok_0@ == c,
            None => r is Err && r->Err_0.kind == ErrorKind::BadDataValueType,
        },
{
    let ghost preds = scalars_view(predicates@);
    let mut split = SplitPredicates {
        left_conditions: Vec::new(),
        right_conditions: Vec::new(),
        other_conditions: Vec::new(),
        left_filters: Vec::new(),
        right_filters: Vec::new(),
    };
    let mut i: usize = 0;
    assert(preds.take(0) =~= Seq::<ScalarView>::empty());
    assert(split@.left_conditions =~= Seq::empty());
    assert(split@.right_conditions =~= Seq::empty());
    assert(split@.other_conditions =~= Seq::empty());
    assert(split@.left_filters =~= Seq::empty());
    assert(split@.right_filters =~= Seq::empty());
    while i < predicates.len()
        invariant
            i <= predicates.len(),
            preds == scalars_view(predicates@),
            split_conditions(preds.take(i as int), left_prop@, right_prop@) == Some(split@),
        decreases predicates.len() - i,
    {
        let pred = &predicates[i];
        proof {
            assert(preds.take(i + 1).drop_last() =~= preds.take(i as int));
            assert(preds.take(i + 1).last() == pred@);
        }
        match JoinCondition::new(pred, left_prop, right_prop) {
            JoinCondition::Left(f) => {
                let c = f.clone();
                proof {
                    lemma_scalars_view_push(split.left_filters@, c);
                }
                split.left_filters.push(c);
            },
            JoinCondition::Right(f) => {
                let c = f.clone();
                proof {
                    lemma_scalars_view_push(split.right_filters@, c);
                }
                split.right_filters.push(c);
            },
            JoinCondition::Other(p) => {
                let c = p.clone();
                proof {
                    lemma_scalars_view_push(split.other_conditions@, c);
                }
                split.other_conditions.push(c);
            },
            JoinCondition::Both { left, right } => {
                let merged = merge_types(&left.data_type(), &right.data_type());
                match merged {
                    Err(e) => {
                        proof {
                            lemma_split_fails(preds, i + 1, left_prop@, right_prop@);
                        }
                        return Err(e);
                    },
                    Ok(join_type) => {
                        let l = wrap_cast_if_needed(left.clone(), &join_type);
                        let r = wrap_cast_if_needed(right.clone(), &join_type);
                        proof {
                            lemma_scalars_view_push(split.left_conditions@, l);
                            lemma_scalars_view_push(split.right_conditions@, r);
                        }
                        split.left_conditions.push(l);
                        split.right_conditions.push(r);
                    },
                }
            },
        }
        i += 1;
    }
    assert(preds.take(i as int) =~= preds);
    Ok(split)
}

/// Builds the join that replaces a subquery of the simple shape, from the
/// outer side, the three operators of the subquery that stay, and its sorted
/// predicates.
fn build_join(
    input: &SExpr,
    input_prop: &RelationalProperty,
    project: &RelOperator,
    eval: &RelOperator,
    get: &RelOperator,
    join_type: JoinType,
    split: SplitPredicates,
) -> (r: SExpr)
    ensures
        r@ == (SExprView {
            plan: RelOperatorView::LogicalInnerJoin {
                left_conditions: split@.left_conditions,
                right_conditions: split@.right_conditions,
                other_conditions: split@.other_conditions,
                join_type,
                marker_index: None,
            },
            children: seq![
                with_filters(split@.left_filters, input@),
                SExprView {
                    plan: RelOperatorView::Project {
                        columns: used_columns_of(split@.right_conditions).union(
                            used_columns_of(split@.other_conditions),
                        ).difference(input_prop@.output_columns),
                    },
                    children: seq![
                        with_filters(
                            split@.right_filters,
                            SExprView {
                                plan: project@,
                                children: seq![
                                    SExprView {
                                        plan: eval@,
                                        children: seq![SExprView { plan: get@, children: Seq::empty() }],
                                    },
                                ],
                            },
                        ),
                    ],
                },
            ],
        }),
{
    // The outer side, under the predicates that it can evaluate alone.
    let left_child = filtered(split.left_filters, input.clone());

    // The subquery without its filter.
    let base = SExpr::create_unary(
        project.clone(),
        SExpr::create_unary(eval.clone(), SExpr::create_leaf(get.clone())),
    );
    let right_child = filtered(split.right_filters, base);

    // Only the columns that the join reads are kept of the right side.
    let used_columns = scalars_used_columns(&split.right_conditions).union(
        &scalars_used_columns(&split.other_conditions),
    ).difference(&input_prop.output_columns);
    let right_child = SExpr::create_unary(RelOperator::Project { columns: used_columns }, right_child);

    let join = RelOperator::LogicalInnerJoin {
        left_conditions: split.left_conditions,
        right_conditions: split.right_conditions,
        other_conditions: split.other_conditions,
        join_type,
        marker_index: None,
    };
    SExpr::create_binary(join, left_child, right_child)
}

/// Tries to turn the correlated subquery `subquery`, which filters the rows
/// of `input`, into a semi join (for `EXISTS`) or an anti join (for `NOT
/// EXISTS`) of `input` with the subquery's table.
///
/// Returns the join, `None` where the subquery is declined, or an error, as
/// [`decorrelate`] says.
#[verifier::rlimit(40)]
pub fn try_decorrelate_subquery(input: &SExpr, subquery: &SubqueryExpr) -> (r: Result<Option<SExpr>, ErrorCode>)
    ensures
        is_decorrelation(r, decorrelate(input@, subquery@)),
{
    if subquery.outer_columns.is_empty() {
        return Ok(None);
    }
    let pattern = simple_pattern();
    if !subquery.subquery.match_pattern(&pattern) {
        return Ok(None);
    }
    proof {
        let p = simple_subquery_pattern();
        let e = *subquery@.subquery;
        assert(matches_pattern(e.children[0], p.children[0]));
        assert(matches_pattern(e.children[0].children[0], p.children[0].children[0]));
        assert(matches_pattern(e.children[0].children[0].children[0], p.children[0].children[0].children[0]));
    }
    let project = &subquery.subquery;
    let eval = project.child(0)?;
    let filter_tree = eval.child(0)?;
    let get = filter_tree.child(0)?;
    let filter_expr = RelExpr::with_s_expr(filter_tree);
    let predicates = match filter_tree.plan() {
        RelOperator::Filter { predicates, .. } => predicates,
        _ => {
            return Err(ErrorCode::create(ErrorKind::LogicalError, "Cannot downcast RelOperator to Filter"));
        },
    };
    let filter_prop = filter_expr.derive_relational_prop()?;
    let filter_child_prop = filter_expr.derive_relational_prop_child(0)?;
    let input_expr = RelExpr::with_s_expr(input);
    let input_prop = input_expr.derive_relational_prop()?;

    // Every reference to the outer side has to sit in the filter itself.
    if !filter_child_prop.outer_columns.is_empty() {
        return Ok(None);
    }
    let split = split_predicates(predicates, &input_prop, &filter_prop)?;
    let join_type = match subquery.typ {
        SubqueryType::Any | SubqueryType::All | SubqueryType::Scalar => {
            return Ok(None);
        },
        SubqueryType::Exists => JoinType::Semi,
        SubqueryType::NotExists => JoinType::Anti,
    };
    Ok(Some(build_join(input, &input_prop, project.plan(), eval.plan(), get.plan(), join_type, split)))
}

/// Once a prefix of the predicates cannot be split, the whole cannot.
proof fn lemma_split_fails(
    preds: Seq<ScalarView>,
    n: int,
    left_prop: RelationalPropertyView,
    right_prop: RelationalPropertyView,
)
    requires
        0 <= n <= preds.len(),
        split_conditions(preds.take(n), left_prop, right_prop) is None,
    ensures
        split_conditions(preds, left_prop, right_prop) is None,
    decreases preds.len() - n,
{
    if n < preds.len() {
        assert(preds.take(n + 1).drop_last() =~= preds.take(n));
        lemma_split_fails(preds, n + 1, left_prop, right_prop);
    } else {
        assert(preds.take(n) =~= preds);
    }
}

/// Takes every subquery out of the scalar expressions of `s_expr` and joins
/// it to the plan: by a cross join where it is uncorrelated, by a semi or
/// anti join where it is a correlated `EXISTS` or `NOT EXISTS` of a simple
/// shape in a filter, else by an apply.
///
/// The columns that this creates are added to `metadata`.
pub fn decorrelate_subquery(metadata: &mut Metadata, s_expr: SExpr) -> (r: Result<SExpr, ErrorCode>)
    ensures
        match rewrite_plan(old(metadata)@, s_expr@) {
            Ok((e, md)) => r is Ok && r->Ok_0@ == e && final(metadata)@ == md,
            Err(k) => r is Err && r->Err_0.kind == k,
        },
        old(metadata)@.is_prefix_of(final(metadata)@),
{
    let mut rewriter = SubqueryRewriter::new(metadata.clone());
    let hoisted = rewriter.rewrite(&s_expr);
    *metadata = rewriter.into_metadata();
    hoisted
}

} // verus!
