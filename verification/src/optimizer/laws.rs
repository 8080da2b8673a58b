//! What holds of the rewriter whatever the plan.

use crate::datavalues::data_type::DataType;
use crate::error::ErrorKind;
use crate::optimizer::decorrelate::add_condition;
use crate::optimizer::decorrelate::decorrelate;
use crate::optimizer::decorrelate::decorrelated_join;
use crate::optimizer::decorrelate::simple_subquery_pattern;
use crate::optimizer::decorrelate::split_conditions;
use crate::optimizer::decorrelate::with_filters;
use crate::optimizer::unnest::attach;
use crate::optimizer::unnest::count_plan;
use crate::optimizer::unnest::rewrite_child;
use crate::optimizer::unnest::rewrite_items;
use crate::optimizer::unnest::rewrite_plan;
use crate::optimizer::unnest::rewrite_scalar;
use crate::optimizer::unnest::rewrite_scalars;
use crate::optimizer::unnest::unnest;
use crate::optimizer::unnest::unnest_any;
use crate::optimizer::unnest::MetadataView;
use crate::planner::column_set::IndexType;
use crate::planner::join_condition::classify;
use crate::planner::join_condition::JoinConditionView;
use crate::planner::plans::RelOperatorView;
use crate::planner::plans::SExprView;
use crate::planner::plans::ScalarItemView;
use crate::planner::plans::ScalarView;
use crate::planner::plans::SubqueryExprView;
use crate::planner::plans::SubqueryType;
use crate::planner::rel_expr::RelationalPropertyView;
use crate::planner::s_expr::matches_pattern;
use crate::planner::scalar::has_subquery;
use crate::planner::scalar::scalar_type;
use crate::planner::scalar::wrap_cast_spec;
use vstd::prelude::*;

verus! {

/// Whether no expression of `v` holds a subquery.
pub open spec fn scalars_clean(v: Seq<ScalarView>) -> bool {
    forall|i: int| 0 <= i < v.len() ==> !has_subquery(#[trigger] v[i])
}

/// Whether no expression of an item of `v` holds a subquery.
pub open spec fn items_clean(v: Seq<ScalarItemView>) -> bool {
    forall|i: int| 0 <= i < v.len() ==> !has_subquery((#[trigger] v[i]).scalar)
}

/// Whether no expression of an operator holds a subquery.
pub open spec fn operator_clean(op: RelOperatorView) -> bool {
    match op {
        RelOperatorView::EvalScalar { items } => items_clean(items),
        RelOperatorView::Filter { predicates, .. } => scalars_clean(predicates),
        RelOperatorView::Aggregate { group_items, aggregate_functions, .. } => items_clean(group_items)
            && items_clean(aggregate_functions),
        RelOperatorView::LogicalInnerJoin { left_conditions, right_conditions, other_conditions, .. } => {
            scalars_clean(left_conditions) && scalars_clean(right_conditions) && scalars_clean(other_conditions)
        },
        RelOperatorView::PhysicalHashJoin { build_keys, probe_keys, other_conditions, .. } => scalars_clean(
            build_keys,
        ) && scalars_clean(probe_keys) && scalars_clean(other_conditions),
        _ => true,
    }
}

/// Whether no expression anywhere in a plan holds a subquery.
pub open spec fn plan_clean(e: SExprView) -> bool
    decreases e,
{
    &&& operator_clean(e.plan)
    &&& forall|i: int| 0 <= i < e.children.len() ==> plan_clean(#[trigger] e.children[i])
}

/// Whether the rewriter reaches every subquery of an expression: there is
/// none among the arguments of an aggregate function, which are not looked
/// into, nor in the operand of a subquery, which is taken as it is; and
/// the same holds of the bodies of the subqueries.
pub open spec fn scalar_ready(s: ScalarView) -> bool
    decreases s, 0nat,
{
    match s {
        ScalarView::BoundColumnRef { .. } => true,
        ScalarView::ConstantExpr { .. } => true,
        ScalarView::AndExpr { left, right, .. } => scalar_ready(*left) && scalar_ready(*right),
        ScalarView::OrExpr { left, right, .. } => scalar_ready(*left) && scalar_ready(*right),
        ScalarView::ComparisonExpr { left, right, .. } => scalar_ready(*left) && scalar_ready(*right),
        ScalarView::AggregateFunction { .. } => !has_subquery(s),
        ScalarView::FunctionCall { arguments, .. } => forall|i: int|
            0 <= i < arguments.len() ==> scalar_ready(#[trigger] arguments[i]),
        ScalarView::CastExpr { argument, .. } => scalar_ready(*argument),
        ScalarView::SubqueryExpr(subquery) => {
            &&& plan_ready(*subquery.subquery)
            &&& subquery.child_expr matches Some(operand) ==> !has_subquery(*operand)
        },
    }
}

/// Whether the rewriter reaches every subquery of a plan: the expressions
/// of computations, filters and aggregations are ready, a join, whose
/// conditions are taken as they are, holds none, and neither does what
/// stands below a scan, which is taken as it is.
pub open spec fn plan_ready(e: SExprView) -> bool
    decreases e, 1nat,
{
    &&& match e.plan {
        RelOperatorView::EvalScalar { items } => forall|i: int|
            0 <= i < items.len() ==> scalar_ready((#[trigger] items[i]).scalar),
        RelOperatorView::Filter { predicates, .. } => forall|i: int|
            0 <= i < predicates.len() ==> scalar_ready(#[trigger] predicates[i]),
        RelOperatorView::Aggregate { group_items, aggregate_functions, .. } => {
            &&& forall|i: int| 0 <= i < group_items.len() ==> scalar_ready((#[trigger] group_items[i]).scalar)
            &&& forall|i: int|
                0 <= i < aggregate_functions.len() ==> scalar_ready((#[trigger] aggregate_functions[i]).scalar)
        },
        RelOperatorView::LogicalGet { .. } => forall|i: int|
            0 <= i < e.children.len() ==> plan_clean(#[trigger] e.children[i]),
        _ => operator_clean(e.plan),
    }
    &&& forall|i: int| 0 <= i < e.children.len() ==> plan_ready(#[trigger] e.children[i])
}

/// A cast of an expression without subquery holds none.
proof fn lemma_cast_clean(s: ScalarView, t: DataType)
    requires
        !has_subquery(s),
    ensures
        !has_subquery(wrap_cast_spec(s, t)),
{
}

/// The predicates of a filter, sorted, hold no subquery where the
/// predicates hold none.
proof fn lemma_split_clean(
    preds: Seq<ScalarView>,
    left_prop: RelationalPropertyView,
    right_prop: RelationalPropertyView,
)
    requires
        scalars_clean(preds),
        split_conditions(preds, left_prop, right_prop) is Some,
    ensures
        ({
            let c = split_conditions(preds, left_prop, right_prop).unwrap();
            &&& scalars_clean(c.left_conditions)
            &&& scalars_clean(c.right_conditions)
            &&& scalars_clean(c.other_conditions)
            &&& scalars_clean(c.left_filters)
            &&& scalars_clean(c.right_filters)
        }),
    decreases preds.len(),
{
    if preds.len() > 0 {
        let before = preds.drop_last();
        assert(scalars_clean(before)) by {
            assert forall|i: int| 0 <= i < before.len() implies !has_subquery(#[trigger] before[i]) by {
                assert(before[i] == preds[i]);
            }
        }
        lemma_split_clean(before, left_prop, right_prop);
        let acc = split_conditions(before, left_prop, right_prop).unwrap();
        let pred = preds.last();
        assert(!has_subquery(pred)) by {
            assert(pred == preds[preds.len() - 1]);
        }
        let c = add_condition(acc, pred, left_prop, right_prop).unwrap();
        match classify(pred, left_prop, right_prop) {
            JoinConditionView::Both { left, right } => {
                let t = DataType::merge_spec(scalar_type(left), scalar_type(right)).unwrap();
                lemma_cast_clean(left, t);
                lemma_cast_clean(right, t);
                lemma_push_clean(acc.left_conditions, wrap_cast_spec(left, t));
                lemma_push_clean(acc.right_conditions, wrap_cast_spec(right, t));
            },
            JoinConditionView::Left(f) => {
                lemma_push_clean(acc.left_filters, f);
            },
            JoinConditionView::Right(f) => {
                lemma_push_clean(acc.right_filters, f);
            },
            JoinConditionView::Other(p) => {
                lemma_push_clean(acc.other_conditions, p);
            },
        }
    }
}

proof fn lemma_push_clean(v: Seq<ScalarView>, s: ScalarView)
    requires
        scalars_clean(v),
        !has_subquery(s),
    ensures
        scalars_clean(v.push(s)),
{
    assert forall|i: int| 0 <= i < v.push(s).len() implies !has_subquery(#[trigger] v.push(s)[i]) by {
        if i < v.len() {
            assert(v.push(s)[i] == v[i]);
        }
    }
}

proof fn lemma_filters_clean(filters: Seq<ScalarView>, child: SExprView)
    requires
        scalars_clean(filters),
        plan_clean(child),
    ensures
        plan_clean(with_filters(filters, child)),
{
    let e = with_filters(filters, child);
    if filters.len() > 0 {
        assert forall|i: int| 0 <= i < e.children.len() implies plan_clean(#[trigger] e.children[i]) by {
            assert(e.children[i] == child);
        }
    }
}

/// A plan of one input holds no subquery where its operator and its input
/// hold none.
proof fn lemma_unary_clean(plan: RelOperatorView, child: SExprView)
    requires
        operator_clean(plan),
        plan_clean(child),
    ensures
        plan_clean(SExprView { plan, children: seq![child] }),
{
    let e = SExprView { plan, children: seq![child] };
    assert forall|i: int| 0 <= i < e.children.len() implies plan_clean(#[trigger] e.children[i]) by {
        assert(e.children[i] == child);
    }
}

proof fn lemma_binary_clean(plan: RelOperatorView, left: SExprView, right: SExprView)
    requires
        operator_clean(plan),
        plan_clean(left),
        plan_clean(right),
    ensures
        plan_clean(SExprView { plan, children: seq![left, right] }),
{
    let e = SExprView { plan, children: seq![left, right] };
    assert forall|i: int| 0 <= i < e.children.len() implies plan_clean(#[trigger] e.children[i]) by {
        if i == 0 {
            assert(e.children[i] == left);
        } else {
            assert(e.children[i] == right);
        }
    }
}

proof fn lemma_leaf_clean(plan: RelOperatorView)
    requires
        operator_clean(plan),
    ensures
        plan_clean(SExprView { plan, children: Seq::empty() }),
{
}

/// The join that decorrelation makes holds no subquery where the plan and
/// the subquery's body hold none.
proof fn lemma_decorrelate_clean(input: SExprView, subquery: SubqueryExprView)
    requires
        plan_clean(input),
        plan_clean(*subquery.subquery),
        decorrelate(input, subquery) is Rewritten,
    ensures
        plan_clean(decorrelate(input, subquery)->Rewritten_0),
{
    let project = *subquery.subquery;
    let pattern = simple_subquery_pattern();
    assert(matches_pattern(project.children[0], pattern.children[0]));
    assert(matches_pattern(project.children[0].children[0], pattern.children[0].children[0]));
    assert(matches_pattern(
        project.children[0].children[0].children[0],
        pattern.children[0].children[0].children[0],
    ));
    let eval = project.children[0];
    let filter = eval.children[0];
    let get = filter.children[0];
    assert(plan_clean(eval));
    assert(plan_clean(filter));
    assert(plan_clean(get));
    let input_prop = crate::planner::rel_expr::derive_prop(input).unwrap();
    let filter_prop = crate::planner::rel_expr::derive_prop(filter).unwrap();
    let predicates = filter.plan->Filter_predicates;
    lemma_split_clean(predicates, input_prop, filter_prop);
    let conds = split_conditions(predicates, input_prop, filter_prop).unwrap();
    lemma_filters_clean(conds.left_filters, input);
    lemma_leaf_clean(get.plan);
    lemma_unary_clean(eval.plan, SExprView { plan: get.plan, children: Seq::empty() });
    lemma_unary_clean(
        project.plan,
        SExprView { plan: eval.plan, children: seq![SExprView { plan: get.plan, children: Seq::empty() }] },
    );
    let base = SExprView {
        plan: project.plan,
        children: seq![
            SExprView { plan: eval.plan, children: seq![SExprView { plan: get.plan, children: Seq::empty() }] },
        ],
    };
    lemma_filters_clean(conds.right_filters, base);
    let join = decorrelated_join(input, input_prop, subquery, conds);
    lemma_unary_clean(join.children[1].plan, with_filters(conds.right_filters, base));
    assert(join.children[1] == (SExprView {
        plan: join.children[1].plan,
        children: seq![with_filters(conds.right_filters, base)],
    }));
    lemma_binary_clean(join.plan, with_filters(conds.left_filters, input), join.children[1]);
    assert(join == (SExprView {
        plan: join.plan,
        children: seq![with_filters(conds.left_filters, input), join.children[1]],
    }));
}

proof fn lemma_attach_clean(left: SExprView, derived: SExprView, outer: Set<IndexType>, correlated: Set<IndexType>)
    requires
        plan_clean(left),
        plan_clean(derived),
    ensures
        plan_clean(attach(left, derived, outer, correlated).0),
{
    let e = attach(left, derived, outer, correlated).0;
    lemma_binary_clean(e.plan, left, derived);
}

proof fn lemma_count_plan_clean(body: SExprView, expected: i64, agg_index: IndexType, compare_index: IndexType)
    requires
        plan_clean(body),
    ensures
        plan_clean(count_plan(body, expected, agg_index, compare_index)),
{
    let project = count_plan(body, expected, agg_index, compare_index);
    let eval = project.children[0];
    let agg = eval.children[0];
    let limit = agg.children[0];
    lemma_unary_clean(limit.plan, body);
    assert(limit == (SExprView { plan: limit.plan, children: seq![body] }));
    assert(operator_clean(agg.plan)) by {
        let items = agg.plan->Aggregate_aggregate_functions;
        assert forall|i: int| 0 <= i < items.len() implies !has_subquery((#[trigger] items[i]).scalar) by {
            assert(items[i].scalar->AggregateFunction_args.len() == 0);
        }
    }
    lemma_unary_clean(agg.plan, limit);
    assert(agg == (SExprView { plan: agg.plan, children: seq![limit] }));
    assert(operator_clean(eval.plan)) by {
        let items = eval.plan->EvalScalar_items;
        assert forall|i: int| 0 <= i < items.len() implies !has_subquery((#[trigger] items[i]).scalar) by {
            reveal_with_fuel(has_subquery, 3);
        }
    }
    lemma_unary_clean(eval.plan, agg);
    assert(eval == (SExprView { plan: eval.plan, children: seq![agg] }));
    lemma_unary_clean(project.plan, eval);
    assert(project == (SExprView { plan: project.plan, children: seq![eval] }));
}

/// Unnesting a subquery whose body and operand hold no subquery over a
/// plan that holds none gives a plan that holds none.
proof fn lemma_unnest_clean(md: MetadataView, left: SExprView, subquery: SubqueryExprView, in_conjunction: bool)
    requires
        plan_clean(left),
        plan_clean(*subquery.subquery),
        subquery.child_expr matches Some(operand) ==> !has_subquery(*operand),
        unnest(md, left, subquery, in_conjunction) is Ok,
    ensures
        plan_clean(unnest(md, left, subquery, in_conjunction)->Ok_0.0),
{
    match subquery.typ {
        SubqueryType::Scalar => {
            let prop = crate::planner::rel_expr::derive_prop(*subquery.subquery).unwrap();
            let guarded = SExprView { plan: RelOperatorView::Max1Row, children: seq![*subquery.subquery] };
            lemma_unary_clean(RelOperatorView::Max1Row, *subquery.subquery);
            lemma_attach_clean(left, guarded, prop.outer_columns, subquery.outer_columns);
        },
        SubqueryType::Exists | SubqueryType::NotExists => {
            if in_conjunction && decorrelate(left, subquery) is Rewritten {
                lemma_decorrelate_clean(left, subquery);
            } else {
                let expected: i64 = if subquery.typ == SubqueryType::Exists {
                    1
                } else {
                    0
                };
                let counted = count_plan(
                    *subquery.subquery,
                    expected,
                    md.len() as IndexType,
                    (md.len() + 1) as IndexType,
                );
                lemma_count_plan_clean(
                    *subquery.subquery,
                    expected,
                    md.len() as IndexType,
                    (md.len() + 1) as IndexType,
                );
                let prop = crate::planner::rel_expr::derive_prop(counted).unwrap();
                lemma_attach_clean(left, counted, prop.outer_columns, subquery.outer_columns);
            }
        },
        SubqueryType::Any => {
            let e = unnest_any(md, left, subquery)->Ok_0.0;
            assert(operator_clean(e.plan)) by {
                let l = e.plan->LogicalInnerJoin_left_conditions;
                let r = e.plan->LogicalInnerJoin_right_conditions;
                assert forall|i: int| 0 <= i < l.len() implies !has_subquery(#[trigger] l[i]) by {};
                assert forall|i: int| 0 <= i < r.len() implies !has_subquery(#[trigger] r[i]) by {};
            }
            lemma_binary_clean(e.plan, *subquery.subquery, left);
        },
        SubqueryType::All => {},
    }
}

/// The rewriter erases the subqueries of an expression: where it reaches
/// them all, the expression that it leaves holds none, and neither does
/// the plan.
pub proof fn lemma_rewrite_scalar_erases(md: MetadataView, scalar: ScalarView, plan: SExprView, in_conjunction: bool)
    requires
        scalar_ready(scalar),
        plan_clean(plan),
        rewrite_scalar(md, scalar, plan, in_conjunction) is Ok,
    ensures
        !has_subquery(rewrite_scalar(md, scalar, plan, in_conjunction)->Ok_0.0),
        plan_clean(rewrite_scalar(md, scalar, plan, in_conjunction)->Ok_0.1),
    decreases scalar, 0nat, 0nat,
{
    match scalar {
        ScalarView::BoundColumnRef { .. } => {},
        ScalarView::ConstantExpr { .. } => {},
        ScalarView::AggregateFunction { .. } => {},
        ScalarView::AndExpr { left, right, .. } => {
            lemma_rewrite_scalar_erases(md, *left, plan, false);
            let (l, p1, m1) = rewrite_scalar(md, *left, plan, false)->Ok_0;
            lemma_rewrite_scalar_erases(m1, *right, p1, false);
        },
        ScalarView::OrExpr { left, right, .. } => {
            lemma_rewrite_scalar_erases(md, *left, plan, false);
            let (l, p1, m1) = rewrite_scalar(md, *left, plan, false)->Ok_0;
            lemma_rewrite_scalar_erases(m1, *right, p1, false);
        },
        ScalarView::ComparisonExpr { left, right, .. } => {
            lemma_rewrite_scalar_erases(md, *left, plan, false);
            let (l, p1, m1) = rewrite_scalar(md, *left, plan, false)->Ok_0;
            lemma_rewrite_scalar_erases(m1, *right, p1, false);
        },
        ScalarView::FunctionCall { arguments, .. } => {
            lemma_rewrite_scalars_erase(md, arguments, arguments.len(), plan, false);
        },
        ScalarView::CastExpr { argument, .. } => {
            lemma_rewrite_scalar_erases(md, *argument, plan, false);
        },
        ScalarView::SubqueryExpr(subquery) => {
            lemma_rewrite_plan_erases(md, *subquery.subquery);
            let (body, m1) = rewrite_plan(md, *subquery.subquery)->Ok_0;
            let rewritten = SubqueryExprView { subquery: Box::new(body), ..subquery };
            lemma_unnest_clean(m1, plan, rewritten, in_conjunction);
        },
    }
}

/// The rewriter erases the subqueries of a list of expressions.
pub proof fn lemma_rewrite_scalars_erase(
    md: MetadataView,
    scalars: Seq<ScalarView>,
    n: nat,
    input: SExprView,
    in_conjunction: bool,
)
    requires
        forall|i: int| 0 <= i < scalars.len() ==> scalar_ready(#[trigger] scalars[i]),
        plan_clean(input),
        rewrite_scalars(md, scalars, n, input, in_conjunction) is Ok,
    ensures
        scalars_clean(rewrite_scalars(md, scalars, n, input, in_conjunction)->Ok_0.0),
        plan_clean(rewrite_scalars(md, scalars, n, input, in_conjunction)->Ok_0.1),
    decreases scalars, 0nat, n,
{
    if n == 0 || n > scalars.len() {
    } else {
        lemma_rewrite_scalars_erase(md, scalars, (n - 1) as nat, input, in_conjunction);
        let (done, plan, m) = rewrite_scalars(md, scalars, (n - 1) as nat, input, in_conjunction)->Ok_0;
        lemma_rewrite_scalar_erases(m, scalars[n - 1], plan, in_conjunction);
        let (scalar, plan2, m2) = rewrite_scalar(m, scalars[n - 1], plan, in_conjunction)->Ok_0;
        lemma_push_clean(done, scalar);
    }
}

/// The rewriter erases the subqueries of a list of items.
pub proof fn lemma_rewrite_items_erase(md: MetadataView, items: Seq<ScalarItemView>, n: nat, input: SExprView)
    requires
        forall|i: int| 0 <= i < items.len() ==> scalar_ready((#[trigger] items[i]).scalar),
        plan_clean(input),
        rewrite_items(md, items, n, input) is Ok,
    ensures
        items_clean(rewrite_items(md, items, n, input)->Ok_0.0),
        plan_clean(rewrite_items(md, items, n, input)->Ok_0.1),
    decreases items, 0nat, n,
{
    if n == 0 || n > items.len() {
    } else {
        lemma_rewrite_items_erase(md, items, (n - 1) as nat, input);
        let (done, plan, m) = rewrite_items(md, items, (n - 1) as nat, input)->Ok_0;
        lemma_rewrite_scalar_erases(m, items[n - 1].scalar, plan, false);
        let (scalar, plan2, m2) = rewrite_scalar(m, items[n - 1].scalar, plan, false)->Ok_0;
        let next = done.push(ScalarItemView { scalar, index: items[n - 1].index });
        assert forall|i: int| 0 <= i < next.len() implies !has_subquery((#[trigger] next[i]).scalar) by {
            if i < done.len() {
                assert(next[i] == done[i]);
            }
        }
    }
}

/// The rewriter erases the subqueries of a plan: where it reaches them
/// all, no expression of the plan that it gives holds a subquery.
pub proof fn lemma_rewrite_plan_erases(md: MetadataView, e: SExprView)
    requires
        plan_ready(e),
        rewrite_plan(md, e) is Ok,
    ensures
        plan_clean(rewrite_plan(md, e)->Ok_0.0),
    decreases e, 1nat, 0nat,
{
    match e.plan {
        RelOperatorView::EvalScalar { items } => {
            lemma_rewrite_child_erases(md, e, 0);
            let (input, m) = rewrite_child(md, e, 0)->Ok_0;
            lemma_rewrite_items_erase(m, items, items.len(), input);
            let (items2, input2, m2) = rewrite_items(m, items, items.len(), input)->Ok_0;
            lemma_unary_clean(RelOperatorView::EvalScalar { items: items2 }, input2);
        },
        RelOperatorView::Filter { predicates, is_having } => {
            lemma_rewrite_child_erases(md, e, 0);
            let (input, m) = rewrite_child(md, e, 0)->Ok_0;
            lemma_rewrite_scalars_erase(m, predicates, predicates.len(), input, true);
            let (predicates2, input2, m2) = rewrite_scalars(m, predicates, predicates.len(), input, true)->Ok_0;
            lemma_unary_clean(RelOperatorView::Filter { predicates: predicates2, is_having }, input2);
        },
        RelOperatorView::Aggregate { group_items, aggregate_functions, from_distinct } => {
            lemma_rewrite_child_erases(md, e, 0);
            let (input, m) = rewrite_child(md, e, 0)->Ok_0;
            lemma_rewrite_items_erase(m, group_items, group_items.len(), input);
            let (group2, input2, m2) = rewrite_items(m, group_items, group_items.len(), input)->Ok_0;
            lemma_rewrite_items_erase(m2, aggregate_functions, aggregate_functions.len(), input2);
            let (aggs2, input3, m3) = rewrite_items(m2, aggregate_functions, aggregate_functions.len(), input2)->Ok_0;
            lemma_unary_clean(
                RelOperatorView::Aggregate { group_items: group2, aggregate_functions: aggs2, from_distinct },
                input3,
            );
        },
        RelOperatorView::LogicalInnerJoin { .. } => {
            lemma_rewrite_child_erases(md, e, 0);
            let (left, m) = rewrite_child(md, e, 0)->Ok_0;
            lemma_rewrite_child_erases(m, e, 1);
            let (right, m2) = rewrite_child(m, e, 1)->Ok_0;
            lemma_binary_clean(e.plan, left, right);
        },
        RelOperatorView::Project { .. } | RelOperatorView::Limit { .. } | RelOperatorView::Sort { .. } => {
            lemma_rewrite_child_erases(md, e, 0);
            let (input, m) = rewrite_child(md, e, 0)->Ok_0;
            lemma_unary_clean(e.plan, input);
        },
        _ => {},
    }
}

/// The rewriter erases the subqueries of the input of a node.
pub proof fn lemma_rewrite_child_erases(md: MetadataView, e: SExprView, index: int)
    requires
        plan_ready(e),
        rewrite_child(md, e, index) is Ok,
    ensures
        plan_clean(rewrite_child(md, e, index)->Ok_0.0),
    decreases e, 0nat, 0nat,
{
    if 0 <= index < e.children.len() {
        assert(plan_ready(e.children[index]));
        lemma_rewrite_plan_erases(md, e.children[index]);
    }
}

/// Whether the rewriter takes every operator of a plan, and every node has
/// as many inputs as its operator takes.
pub open spec fn rewritable(e: SExprView) -> bool
    decreases e,
{
    &&& e.plan is EvalScalar || e.plan is Filter || e.plan is Aggregate || e.plan is LogicalInnerJoin
        || e.plan is Project || e.plan is Limit || e.plan is Sort || e.plan is LogicalGet
    &&& e.children.len() == crate::planner::s_expr::arity_of(crate::planner::s_expr::rel_op_of(e.plan))
    &&& forall|i: int| 0 <= i < e.children.len() ==> rewritable(#[trigger] e.children[i])
}

/// An expression without subquery is left as it is, and so are the plan
/// and the registry.
pub proof fn lemma_rewrite_scalar_keeps(md: MetadataView, scalar: ScalarView, plan: SExprView, in_conjunction: bool)
    requires
        !has_subquery(scalar),
    ensures
        rewrite_scalar(md, scalar, plan, in_conjunction) == Ok::<
            (ScalarView, SExprView, MetadataView),
            ErrorKind,
        >((scalar, plan, md)),
    decreases scalar, 0nat, 0nat,
{
    match scalar {
        ScalarView::AndExpr { left, right, .. } => {
            lemma_rewrite_scalar_keeps(md, *left, plan, false);
            lemma_rewrite_scalar_keeps(md, *right, plan, false);
        },
        ScalarView::OrExpr { left, right, .. } => {
            lemma_rewrite_scalar_keeps(md, *left, plan, false);
            lemma_rewrite_scalar_keeps(md, *right, plan, false);
        },
        ScalarView::ComparisonExpr { left, right, .. } => {
            lemma_rewrite_scalar_keeps(md, *left, plan, false);
            lemma_rewrite_scalar_keeps(md, *right, plan, false);
        },
        ScalarView::FunctionCall { arguments, .. } => {
            assert(scalars_clean(arguments));
            lemma_rewrite_scalars_keep(md, arguments, arguments.len(), plan, false);
            assert(arguments.take(arguments.len() as int) =~= arguments);
        },
        ScalarView::CastExpr { argument, .. } => {
            lemma_rewrite_scalar_keeps(md, *argument, plan, false);
        },
        _ => {},
    }
}

/// Expressions without subquery are left as they are.
pub proof fn lemma_rewrite_scalars_keep(
    md: MetadataView,
    scalars: Seq<ScalarView>,
    n: nat,
    input: SExprView,
    in_conjunction: bool,
)
    requires
        scalars_clean(scalars),
        n <= scalars.len(),
    ensures
        rewrite_scalars(md, scalars, n, input, in_conjunction) == Ok::<
            (Seq<ScalarView>, SExprView, MetadataView),
            ErrorKind,
        >((scalars.take(n as int), input, md)),
    decreases scalars, 0nat, n,
{
    if n == 0 {
        assert(scalars.take(0) =~= Seq::<ScalarView>::empty());
    } else {
        lemma_rewrite_scalars_keep(md, scalars, (n - 1) as nat, input, in_conjunction);
        lemma_rewrite_scalar_keeps(md, scalars[n - 1], input, in_conjunction);
        assert(scalars.take(n as int) =~= scalars.take(n - 1).push(scalars[n - 1]));
    }
}

/// Items whose expressions hold no subquery are left as they are.
pub proof fn lemma_rewrite_items_keep(md: MetadataView, items: Seq<ScalarItemView>, n: nat, input: SExprView)
    requires
        items_clean(items),
        n <= items.len(),
    ensures
        rewrite_items(md, items, n, input) == Ok::<(Seq<ScalarItemView>, SExprView, MetadataView), ErrorKind>(
            (items.take(n as int), input, md),
        ),
    decreases items, 0nat, n,
{
    if n == 0 {
        assert(items.take(0) =~= Seq::<ScalarItemView>::empty());
    } else {
        lemma_rewrite_items_keep(md, items, (n - 1) as nat, input);
        lemma_rewrite_scalar_keeps(md, items[n - 1].scalar, input, false);
        assert(items.take(n as int) =~= items.take(n - 1).push(items[n - 1]));
    }
}

/// A plan without subqueries is left as it is: rewriting a plan that the
/// rewriter takes, and in which no expression holds a subquery, gives the
/// plan itself and adds no column.
pub proof fn lemma_rewrite_plan_keeps(md: MetadataView, e: SExprView)
    requires
        rewritable(e),
        plan_clean(e),
    ensures
        rewrite_plan(md, e) == Ok::<(SExprView, MetadataView), ErrorKind>((e, md)),
    decreases e, 1nat, 0nat,
{
    if e.children.len() > 0 {
        assert(rewritable(e.children[0]) && plan_clean(e.children[0]));
        lemma_rewrite_plan_keeps(md, e.children[0]);
    }
    if e.children.len() > 1 {
        assert(rewritable(e.children[1]) && plan_clean(e.children[1]));
        lemma_rewrite_plan_keeps(md, e.children[1]);
    }
    match e.plan {
        RelOperatorView::EvalScalar { items } => {
            lemma_rewrite_items_keep(md, items, items.len(), e.children[0]);
            assert(items.take(items.len() as int) =~= items);
            assert(seq![e.children[0]] =~= e.children);
        },
        RelOperatorView::Filter { predicates, .. } => {
            lemma_rewrite_scalars_keep(md, predicates, predicates.len(), e.children[0], true);
            assert(predicates.take(predicates.len() as int) =~= predicates);
            assert(seq![e.children[0]] =~= e.children);
        },
        RelOperatorView::Aggregate { group_items, aggregate_functions, .. } => {
            lemma_rewrite_items_keep(md, group_items, group_items.len(), e.children[0]);
            lemma_rewrite_items_keep(md, aggregate_functions, aggregate_functions.len(), e.children[0]);
            assert(group_items.take(group_items.len() as int) =~= group_items);
            assert(aggregate_functions.take(aggregate_functions.len() as int) =~= aggregate_functions);
            assert(seq![e.children[0]] =~= e.children);
        },
        RelOperatorView::LogicalInnerJoin { .. } => {
            assert(seq![e.children[0], e.children[1]] =~= e.children);
        },
        RelOperatorView::Project { .. } | RelOperatorView::Limit { .. } | RelOperatorView::Sort { .. } => {
            assert(seq![e.children[0]] =~= e.children);
        },
        _ => {},
    }
}

} // verus!
