//! What unnesting makes of a plan with subqueries, as mathematical
//! functions on the values of plans.

use crate::datavalues::data_type::DataType;
use crate::datavalues::data_value::DataValueView;
use crate::error::ErrorKind;
use crate::optimizer::decorrelate::decorrelate;
use crate::optimizer::decorrelate::Decorrelation;
use crate::planner::column_set::is_least;
use crate::planner::column_set::IndexType;
use crate::planner::metadata::ColumnEntryView;
use crate::planner::names::subquery_name;
use crate::planner::plans::ColumnBindingView;
use crate::planner::plans::ComparisonOp;
use crate::planner::plans::JoinType;
use crate::planner::plans::RelOperatorView;
use crate::planner::plans::SExprView;
use crate::planner::plans::ScalarItemView;
use crate::planner::plans::ScalarView;
use crate::planner::plans::SubqueryExprView;
use crate::planner::plans::SubqueryType;
use crate::planner::rel_expr::derive_child;
use crate::planner::rel_expr::derive_prop;
use vstd::prelude::*;

verus! {

/// The columns of a query, by identifier.
pub type MetadataView = Seq<ColumnEntryView>;

/// How a subquery was attached to the plan around it.
#[derive(Clone, Copy, Debug, PartialEq, Eq, Structural)]
pub enum UnnestResult {
    /// By a cross join: the subquery refers to no enclosing scope.
    Uncorrelated,
    /// By a correlated apply, to be evaluated once for each outer row.
    Apply,
    /// By a semi or anti join that takes the place of the predicate.
    SimpleJoin,
    /// By a mark join that writes its verdict to the column `marker_index`.
    MarkJoin { marker_index: IndexType },
}

/// The type of the result of `COUNT(*)`.
pub open spec fn count_type() -> DataType {
    DataType::UInt64
}

/// A join without conditions.
pub open spec fn cross_join() -> RelOperatorView {
    RelOperatorView::LogicalInnerJoin {
        left_conditions: Seq::empty(),
        right_conditions: Seq::empty(),
        other_conditions: Seq::empty(),
        join_type: JoinType::Cross,
        marker_index: None,
    }
}

/// `left` with a derived subquery attached: by a cross join where the
/// subquery has no reference to an enclosing scope (`outer` is empty), else
/// by an apply over the columns `correlated`.
pub open spec fn attach(
    left: SExprView,
    derived: SExprView,
    outer: Set<IndexType>,
    correlated: Set<IndexType>,
) -> (SExprView, UnnestResult) {
    if outer == Set::<IndexType>::empty() {
        (SExprView { plan: cross_join(), children: seq![left, derived] }, UnnestResult::Uncorrelated)
    } else {
        (
            SExprView {
                plan: RelOperatorView::CrossApply { correlated_columns: correlated },
                children: seq![left, derived],
            },
            UnnestResult::Apply,
        )
    }
}

/// A reference to the column `index` under the name `name`, of type
/// `data_type`, as the rewriter makes them.
pub open spec fn derived_column(name: Seq<char>, index: IndexType, data_type: DataType) -> ScalarView {
    ScalarView::BoundColumnRef {
        column: ColumnBindingView {
            database_name: None,
            table_name: None,
            column_name: name,
            index,
            data_type,
            visible_in_unqualified_wildcard: false,
        },
    }
}

/// The plan that tells whether `body` has a row (`expected` is 1) or has
/// none (`expected` is 0): one row of `body` at most is counted into the
/// column `agg_index`, the count is compared with `expected` into the
/// column `compare_index`, and that column alone is kept.
pub open spec fn count_plan(
    body: SExprView,
    expected: i64,
    agg_index: IndexType,
    compare_index: IndexType,
) -> SExprView {
    let limit = SExprView { plan: RelOperatorView::Limit { limit: Some(1), offset: 0 }, children: seq![body] };
    let agg = SExprView {
        plan: RelOperatorView::Aggregate {
            group_items: Seq::empty(),
            aggregate_functions: seq![
                ScalarItemView {
                    scalar: ScalarView::AggregateFunction {
                        display_name: "count(*)"@,
                        func_name: "count"@,
                        distinct: false,
                        args: Seq::empty(),
                        return_type: count_type(),
                    },
                    index: agg_index,
                },
            ],
            from_distinct: false,
        },
        children: seq![limit],
    };
    let compare = ScalarView::ComparisonExpr {
        op: ComparisonOp::Equal,
        left: Box::new(derived_column("count(*)"@, agg_index, count_type())),
        right: Box::new(
            ScalarView::ConstantExpr { value: DataValueView::Int64(expected), data_type: count_type() },
        ),
        return_type: count_type(),
    };
    let eval = SExprView {
        plan: RelOperatorView::EvalScalar { items: seq![ScalarItemView { scalar: compare, index: compare_index }] },
        children: seq![agg],
    };
    SExprView {
        plan: RelOperatorView::Project { columns: Set::<IndexType>::empty().insert(compare_index) },
        children: seq![eval],
    }
}

/// The least member of a set of columns.
pub open spec fn least_column(s: Set<IndexType>) -> IndexType {
    choose|x: IndexType| is_least(s, x)
}

/// The registry `md` with one more column of the given name and type.
pub open spec fn with_column(md: MetadataView, name: Seq<char>, data_type: DataType) -> MetadataView {
    md.push(ColumnEntryView { name, data_type, table_index: None })
}

/// Unnesting a scalar subquery: its body, guarded to give one row at most,
/// is attached to `left`.
pub open spec fn unnest_scalar(md: MetadataView, left: SExprView, subquery: SubqueryExprView) -> Result<
    (SExprView, UnnestResult, MetadataView),
    ErrorKind,
> {
    match derive_prop(*subquery.subquery) {
        None => Err(ErrorKind::LogicalError),
        Some(prop) => {
            let guarded = SExprView { plan: RelOperatorView::Max1Row, children: seq![*subquery.subquery] };
            let (plan, result) = attach(left, guarded, prop.outer_columns, subquery.outer_columns);
            Ok((plan, result, md))
        },
    }
}

/// Unnesting an `EXISTS` or `NOT EXISTS` subquery in the general way: the
/// plan that counts its rows is attached to `left`. Two columns are
/// registered, for the count and for the comparison.
pub open spec fn unnest_exists_by_count(md: MetadataView, left: SExprView, subquery: SubqueryExprView) -> Result<
    (SExprView, UnnestResult, MetadataView),
    ErrorKind,
> {
    let agg_index = md.len() as IndexType;
    let compare_index = (md.len() + 1) as IndexType;
    let md2 = with_column(with_column(md, "count(*)"@, count_type()), "subquery"@, DataType::Boolean);
    let expected: i64 = if subquery.typ == SubqueryType::Exists {
        1
    } else {
        0
    };
    let counted = count_plan(*subquery.subquery, expected, agg_index, compare_index);
    match derive_prop(counted) {
        None => Err(ErrorKind::LogicalError),
        Some(prop) => {
            let (plan, result) = attach(left, counted, prop.outer_columns, subquery.outer_columns);
            Ok((plan, result, md2))
        },
    }
}

/// Unnesting an `ANY` subquery: a mark join of the subquery with `left`
/// that compares the subquery's first output column with the operand, and
/// whose verdict goes to a new nullable boolean column.
///
/// A subquery without output columns or without operand, and a correlated
/// one, are a `LogicalError`.
pub open spec fn unnest_any(md: MetadataView, left: SExprView, subquery: SubqueryExprView) -> Result<
    (SExprView, UnnestResult, MetadataView),
    ErrorKind,
> {
    match (derive_prop(*subquery.subquery), subquery.child_expr) {
        (Some(prop), Some(operand)) => {
            if prop.output_columns == Set::<IndexType>::empty() || prop.outer_columns != Set::<
                IndexType,
            >::empty() {
                Err(ErrorKind::LogicalError)
            } else {
                let index = least_column(prop.output_columns);
                let marker_index = md.len() as IndexType;
                Ok(
                    (
                        SExprView {
                            plan: RelOperatorView::LogicalInnerJoin {
                                left_conditions: seq![
                                    derived_column(subquery_name(index), index, subquery.data_type),
                                ],
                                right_conditions: seq![*operand],
                                other_conditions: Seq::empty(),
                                join_type: JoinType::Mark,
                                marker_index: Some(marker_index),
                            },
                            children: seq![*subquery.subquery, left],
                        },
                        UnnestResult::MarkJoin { marker_index },
                        with_column(md, "marker"@, DataType::Nullable(Box::new(DataType::Boolean))),
                    ),
                )
            }
        },
        _ => Err(ErrorKind::LogicalError),
    }
}

/// Unnesting the subquery `subquery`, whose body holds no subquery any
/// more, over the plan `left`: the new plan, how the subquery was attached,
/// and the registry with the columns that were added.
///
/// `in_conjunction` says that the subquery is one conjunct of a filter; only
/// there an `EXISTS` or `NOT EXISTS` subquery is tried for a semi or anti
/// join first. An `ALL` subquery is an `UnsupportedFeature` error.
pub open spec fn unnest(md: MetadataView, left: SExprView, subquery: SubqueryExprView, in_conjunction: bool) -> Result<
    (SExprView, UnnestResult, MetadataView),
    ErrorKind,
> {
    match subquery.typ {
        SubqueryType::Scalar => unnest_scalar(md, left, subquery),
        SubqueryType::Exists | SubqueryType::NotExists => {
            if in_conjunction {
                match decorrelate(left, subquery) {
                    Decorrelation::Failed(kind) => Err(kind),
                    Decorrelation::Rewritten(join) => Ok((join, UnnestResult::SimpleJoin, md)),
                    Decorrelation::Declined => unnest_exists_by_count(md, left, subquery),
                }
            } else {
                unnest_exists_by_count(md, left, subquery)
            }
        },
        SubqueryType::Any => unnest_any(md, left, subquery),
        SubqueryType::All => Err(ErrorKind::UnsupportedFeature),
    }
}

/// The scalar that takes the place of an unnested subquery in its
/// expression: the literal `true` after a semi or anti join, the marker
/// column after a mark join, else the first output column of the derived
/// side of `plan`, under the name `subquery_` and its identifier.
pub open spec fn substitute(
    subquery: SubqueryExprView,
    plan: SExprView,
    result: UnnestResult,
) -> Result<ScalarView, ErrorKind> {
    match result {
        UnnestResult::SimpleJoin => Ok(
            ScalarView::ConstantExpr { value: DataValueView::Boolean(true), data_type: DataType::Boolean },
        ),
        _ => match derive_child(plan, if subquery.typ == SubqueryType::Any { 0int } else { 1int }) {
            None => Err(ErrorKind::LogicalError),
            Some(prop) => match result {
                UnnestResult::MarkJoin { marker_index } => Ok(
                    derived_column("marker"@, marker_index, subquery.data_type),
                ),
                _ => {
                    if prop.output_columns == Set::<IndexType>::empty() {
                        Err(ErrorKind::LogicalError)
                    } else {
                        let index = least_column(prop.output_columns);
                        Ok(derived_column(subquery_name(index), index, subquery.data_type))
                    }
                },
            },
        },
    }
}

/// The input of `e` at position `index` with its subqueries unnested.
pub open spec fn rewrite_child(md: MetadataView, e: SExprView, index: int) -> Result<
    (SExprView, MetadataView),
    ErrorKind,
>
    decreases e, 0nat, 0nat,
{
    if 0 <= index < e.children.len() {
        rewrite_plan(md, e.children[index])
    } else {
        Err(ErrorKind::LogicalError)
    }
}

/// The plan `e` with every subquery of its scalar expressions unnested, and
/// the registry with the columns that this took.
///
/// The inputs of a node are rewritten first. The expressions of a
/// computation, a filter or an aggregation are rewritten in their order,
/// each over the plan that the one before it left; the predicates of a
/// filter count as conjuncts. Joins, projections, limits and sorts keep
/// their operator. A scan stays as it is. Any other operator is a
/// `LogicalError`.
pub open spec fn rewrite_plan(md: MetadataView, e: SExprView) -> Result<(SExprView, MetadataView), ErrorKind>
    decreases e, 1nat, 0nat,
{
    match e.plan {
        RelOperatorView::EvalScalar { items } => match rewrite_child(md, e, 0) {
            Err(k) => Err(k),
            Ok((input, m)) => match rewrite_items(m, items, items.len(), input) {
                Err(k) => Err(k),
                Ok((items2, input2, m2)) => Ok(
                    (SExprView { plan: RelOperatorView::EvalScalar { items: items2 }, children: seq![input2] }, m2),
                ),
            },
        },
        RelOperatorView::Filter { predicates, is_having } => match rewrite_child(md, e, 0) {
            Err(k) => Err(k),
            Ok((input, m)) => match rewrite_scalars(m, predicates, predicates.len(), input, true) {
                Err(k) => Err(k),
                Ok((predicates2, input2, m2)) => Ok(
                    (
                        SExprView {
                            plan: RelOperatorView::Filter { predicates: predicates2, is_having },
                            children: seq![input2],
                        },
                        m2,
                    ),
                ),
            },
        },
        RelOperatorView::Aggregate { group_items, aggregate_functions, from_distinct } => match rewrite_child(
            md,
            e,
            0,
        ) {
            Err(k) => Err(k),
            Ok((input, m)) => match rewrite_items(m, group_items, group_items.len(), input) {
                Err(k) => Err(k),
                Ok((group2, input2, m2)) => match rewrite_items(
                    m2,
                    aggregate_functions,
                    aggregate_functions.len(),
                    input2,
                ) {
                    Err(k) => Err(k),
                    Ok((aggs2, input3, m3)) => Ok(
                        (
                            SExprView {
                                plan: RelOperatorView::Aggregate {
                                    group_items: group2,
                                    aggregate_functions: aggs2,
                                    from_distinct,
                                },
                                children: seq![input3],
                            },
                            m3,
                        ),
                    ),
                },
            },
        },
        RelOperatorView::LogicalInnerJoin { .. } => match rewrite_child(md, e, 0) {
            Err(k) => Err(k),
            Ok((left, m)) => match rewrite_child(m, e, 1) {
                Err(k) => Err(k),
                Ok((right, m2)) => Ok((SExprView { plan: e.plan, children: seq![left, right] }, m2)),
            },
        },
        RelOperatorView::Project { .. } | RelOperatorView::Limit { .. } | RelOperatorView::Sort { .. } => {
            match rewrite_child(md, e, 0) {
                Err(k) => Err(k),
                Ok((input, m)) => Ok((SExprView { plan: e.plan, children: seq![input] }, m)),
            }
        },
        RelOperatorView::LogicalGet { .. } => Ok((e, md)),
        _ => Err(ErrorKind::LogicalError),
    }
}

/// The first `n` items of `items` rewritten in their order over `input`:
/// the rewritten items, the plan that the last of them left, and the
/// registry.
pub open spec fn rewrite_items(md: MetadataView, items: Seq<ScalarItemView>, n: nat, input: SExprView) -> Result<
    (Seq<ScalarItemView>, SExprView, MetadataView),
    ErrorKind,
>
    decreases items, 0nat, n,
{
    if n == 0 || n > items.len() {
        Ok((Seq::empty(), input, md))
    } else {
        match rewrite_items(md, items, (n - 1) as nat, input) {
            Err(k) => Err(k),
            Ok((done, plan, m)) => match rewrite_scalar(m, items[n - 1].scalar, plan, false) {
                Err(k) => Err(k),
                Ok((scalar, plan2, m2)) => Ok(
                    (done.push(ScalarItemView { scalar, index: items[n - 1].index }), plan2, m2),
                ),
            },
        }
    }
}

/// The first `n` expressions of `scalars` rewritten in their order over
/// `input`.
pub open spec fn rewrite_scalars(
    md: MetadataView,
    scalars: Seq<ScalarView>,
    n: nat,
    input: SExprView,
    in_conjunction: bool,
) -> Result<(Seq<ScalarView>, SExprView, MetadataView), ErrorKind>
    decreases scalars, 0nat, n,
{
    if n == 0 || n > scalars.len() {
        Ok((Seq::empty(), input, md))
    } else {
        match rewrite_scalars(md, scalars, (n - 1) as nat, input, in_conjunction) {
            Err(k) => Err(k),
            Ok((done, plan, m)) => match rewrite_scalar(m, scalars[n - 1], plan, in_conjunction) {
                Err(k) => Err(k),
                Ok((scalar, plan2, m2)) => Ok((done.push(scalar), plan2, m2)),
            },
        }
    }
}

/// The expression `scalar` with its subqueries unnested over `plan`: the
/// expression that is left, the plan with the joins that were added, and the
/// registry.
///
/// Columns and constants stay as they are, and so does an aggregate
/// function, which is not looked into. The operands of any other expression
/// are rewritten left to right, each over the plan that the one before it
/// left. The body of a subquery is rewritten first; the subquery is then
/// unnested over `plan` and replaced as [`substitute`] says.
pub open spec fn rewrite_scalar(md: MetadataView, scalar: ScalarView, plan: SExprView, in_conjunction: bool) -> Result<
    (ScalarView, SExprView, MetadataView),
    ErrorKind,
>
    decreases scalar, 0nat, 0nat,
{
    match scalar {
        ScalarView::BoundColumnRef { .. } => Ok((scalar, plan, md)),
        ScalarView::ConstantExpr { .. } => Ok((scalar, plan, md)),
        ScalarView::AggregateFunction { .. } => Ok((scalar, plan, md)),
        ScalarView::AndExpr { left, right, return_type } => match rewrite_scalar(md, *left, plan, false) {
            Err(k) => Err(k),
            Ok((l, plan1, m1)) => match rewrite_scalar(m1, *right, plan1, false) {
                Err(k) => Err(k),
                Ok((r, plan2, m2)) => Ok(
                    (ScalarView::AndExpr { left: Box::new(l), right: Box::new(r), return_type }, plan2, m2),
                ),
            },
        },
        ScalarView::OrExpr { left, right, return_type } => match rewrite_scalar(md, *left, plan, false) {
            Err(k) => Err(k),
            Ok((l, plan1, m1)) => match rewrite_scalar(m1, *right, plan1, false) {
                Err(k) => Err(k),
                Ok((r, plan2, m2)) => Ok(
                    (ScalarView::OrExpr { left: Box::new(l), right: Box::new(r), return_type }, plan2, m2),
                ),
            },
        },
        ScalarView::ComparisonExpr { op, left, right, return_type } => match rewrite_scalar(
            md,
            *left,
            plan,
            false,
        ) {
            Err(k) => Err(k),
            Ok((l, plan1, m1)) => match rewrite_scalar(m1, *right, plan1, false) {
                Err(k) => Err(k),
                Ok((r, plan2, m2)) => Ok(
                    (
                        ScalarView::ComparisonExpr { op, left: Box::new(l), right: Box::new(r), return_type },
                        plan2,
                        m2,
                    ),
                ),
            },
        },
        ScalarView::FunctionCall { func_name, arguments, return_type } => match rewrite_scalars(
            md,
            arguments,
            arguments.len(),
            plan,
            false,
        ) {
            Err(k) => Err(k),
            Ok((args, plan2, m2)) => Ok(
                (ScalarView::FunctionCall { func_name, arguments: args, return_type }, plan2, m2),
            ),
        },
        ScalarView::CastExpr { argument, from_type, target_type } => match rewrite_scalar(
            md,
            *argument,
            plan,
            false,
        ) {
            Err(k) => Err(k),
            Ok((arg, plan2, m2)) => Ok(
                (ScalarView::CastExpr { argument: Box::new(arg), from_type, target_type }, plan2, m2),
            ),
        },
        ScalarView::SubqueryExpr(subquery) => match rewrite_plan(md, *subquery.subquery) {
            Err(k) => Err(k),
            Ok((body, m1)) => {
                let rewritten = SubqueryExprView { subquery: Box::new(body), ..subquery };
                match unnest(m1, plan, rewritten, in_conjunction) {
                    Err(k) => Err(k),
                    Ok((plan2, result, m2)) => match substitute(rewritten, plan2, result) {
                        Err(k) => Err(k),
                        Ok(replacement) => Ok((replacement, plan2, m2)),
                    },
                }
            },
        },
    }
}

} // verus!
