//! The rewriter that takes subqueries out of the scalar expressions of a
//! plan and joins them to the plan instead.

use crate::datavalues::data_type::DataType;
use crate::datavalues::data_value::DataValue;
use crate::error::ErrorCode;
use crate::error::ErrorKind;
use crate::optimizer::decorrelate::try_decorrelate_subquery;
use crate::optimizer::unnest::attach;
use crate::optimizer::unnest::count_plan;
use crate::optimizer::unnest::count_type;
use crate::optimizer::unnest::cross_join;
use crate::optimizer::unnest::derived_column;
use crate::optimizer::unnest::least_column;
use crate::optimizer::unnest::rewrite_child;
use crate::optimizer::unnest::rewrite_items;
use crate::optimizer::unnest::rewrite_plan;
use crate::optimizer::unnest::rewrite_scalar;
use crate::optimizer::unnest::rewrite_scalars;
use crate::optimizer::unnest::substitute;
use crate::optimizer::unnest::unnest;
use crate::optimizer::unnest::MetadataView;
use crate::optimizer::unnest::UnnestResult;
use crate::planner::column_set::is_least;
use crate::planner::column_set::ColumnSet;
use crate::planner::column_set::IndexType;
use crate::planner::metadata::ColumnEntryView;
use crate::planner::metadata::Metadata;
use crate::planner::names::subquery_column_name;
use crate::planner::plans::clone_scalar;
use crate::planner::plans::items_view;
use crate::planner::plans::scalars_view;
use crate::planner::plans::ColumnBinding;
use crate::planner::plans::ComparisonOp;
use crate::planner::plans::JoinType;
use crate::planner::plans::RelOperator;
use crate::planner::plans::SExpr;
use crate::planner::plans::SExprView;
use crate::planner::plans::Scalar;
use crate::planner::plans::ScalarItem;
use crate::planner::plans::ScalarItemView;
use crate::planner::plans::ScalarView;
use crate::planner::plans::SubqueryExpr;
use crate::planner::plans::SubqueryExprView;
use crate::planner::plans::SubqueryType;
use crate::planner::rel_expr::derive_relational_prop;
use crate::planner::rel_expr::RelExpr;
use vstd::prelude::*;
use vstd::string::StringExecFns;

verus! {

/// Rewrites the subqueries of a plan into joins. It owns the registry of
/// the query's columns, to which it adds the columns that it creates.
pub struct SubqueryRewriter {
    metadata: Metadata,
}

impl View for SubqueryRewriter {
    type V = MetadataView;

    closed spec fn view(&self) -> MetadataView {
        self.metadata@
    }
}

/// The left operand of a binary expression.
pub open spec fn left_operand(s: ScalarView) -> ScalarView {
    match s {
        ScalarView::AndExpr { left, .. } => *left,
        ScalarView::OrExpr { left, .. } => *left,
        ScalarView::ComparisonExpr { left, .. } => *left,
        _ => s,
    }
}

/// The right operand of a binary expression.
pub open spec fn right_operand(s: ScalarView) -> ScalarView {
    match s {
        ScalarView::AndExpr { right, .. } => *right,
        ScalarView::OrExpr { right, .. } => *right,
        ScalarView::ComparisonExpr { right, .. } => *right,
        _ => s,
    }
}

/// A set has one least member at most.
pub proof fn lemma_least_unique(s: Set<IndexType>, x: IndexType)
    requires
        is_least(s, x),
    ensures
        least_column(s) == x,
{
    let y = least_column(s);
    assert(is_least(s, y));
}

proof fn lemma_prefix_push(md: MetadataView, entry: ColumnEntryView)
    ensures
        md.is_prefix_of(md.push(entry)),
{
    assert(md =~= md.push(entry).subrange(0, md.len() as int));
}

/// A registry that grew from one that grew from another grew from that
/// one.
broadcast proof fn lemma_prefix_trans(a: MetadataView, b: MetadataView, c: MetadataView)
    requires
        #[trigger] a.is_prefix_of(b),
        #[trigger] b.is_prefix_of(c),
    ensures
        a.is_prefix_of(c),
{
    assert(a =~= c.subrange(0, a.len() as int));
}

/// Rewriting more of a list fails where rewriting less of it fails.
proof fn lemma_items_fail(md: MetadataView, items: Seq<ScalarItemView>, i: nat, n: nat, input: SExprView)
    requires
        1 <= i <= n <= items.len(),
        rewrite_items(md, items, i, input) is Err,
    ensures
        rewrite_items(md, items, n, input) == rewrite_items(md, items, i, input),
    decreases n - i,
{
    if i < n {
        lemma_items_fail(md, items, i, (n - 1) as nat, input);
    }
}

proof fn lemma_scalars_fail(
    md: MetadataView,
    scalars: Seq<ScalarView>,
    i: nat,
    n: nat,
    input: SExprView,
    in_conjunction: bool,
)
    requires
        1 <= i <= n <= scalars.len(),
        rewrite_scalars(md, scalars, i, input, in_conjunction) is Err,
    ensures
        rewrite_scalars(md, scalars, n, input, in_conjunction) == rewrite_scalars(
            md,
            scalars,
            i,
            input,
            in_conjunction,
        ),
    decreases n - i,
{
    if i < n {
        lemma_scalars_fail(md, scalars, i, (n - 1) as nat, input, in_conjunction);
    }
}

fn no_scalars() -> (v: Vec<Scalar>)
    ensures
        scalars_view(v@) == Seq::<ScalarView>::empty(),
{
    let v: Vec<Scalar> = Vec::new();
    assert(scalars_view(v@) =~= Seq::<ScalarView>::empty());
    v
}

fn one_scalar(s: Scalar) -> (v: Vec<Scalar>)
    ensures
        scalars_view(v@) == seq![s@],
{
    let mut v: Vec<Scalar> = Vec::new();
    v.push(s);
    assert(scalars_view(v@) =~= seq![s@]);
    v
}

fn no_items() -> (v: Vec<ScalarItem>)
    ensures
        items_view(v@) == Seq::<ScalarItemView>::empty(),
{
    let v: Vec<ScalarItem> = Vec::new();
    assert(items_view(v@) =~= Seq::<ScalarItemView>::empty());
    v
}

fn one_item(item: ScalarItem) -> (v: Vec<ScalarItem>)
    ensures
        items_view(v@) == seq![item@],
{
    let mut v: Vec<ScalarItem> = Vec::new();
    v.push(item);
    assert(items_view(v@) =~= seq![item@]);
    v
}

fn count_return_type() -> (t: DataType)
    ensures
        t == count_type(),
{
    DataType::UInt64
}

fn derived_column_ref(name: String, index: IndexType, data_type: DataType) -> (r: Scalar)
    ensures
        r@ == derived_column(name@, index, data_type),
{
    Scalar::BoundColumnRef {
        column: ColumnBinding {
            database_name: None,
            table_name: None,
            column_name: name,
            index,
            data_type,
            visible_in_unqualified_wildcard: false,
        },
    }
}

fn attach_subquery(left: SExpr, derived: SExpr, outer: &ColumnSet, correlated: &ColumnSet) -> (r: (
    SExpr,
    UnnestResult,
))
    ensures
        (r.0@, r.1) == attach(left@, derived@, outer@, correlated@),
{
    if outer.is_empty() {
        let join = RelOperator::LogicalInnerJoin {
            left_conditions: no_scalars(),
            right_conditions: no_scalars(),
            other_conditions: no_scalars(),
            join_type: JoinType::Cross,
            marker_index: None,
        };
        assert(join@ == cross_join());
        (SExpr::create_binary(join, left, derived), UnnestResult::Uncorrelated)
    } else {
        let apply = RelOperator::CrossApply { correlated_columns: correlated.clone() };
        (SExpr::create_binary(apply, left, derived), UnnestResult::Apply)
    }
}

fn count_subquery(body: SExpr, expected: i64, agg_index: IndexType, compare_index: IndexType) -> (r: SExpr)
    ensures
        r@ == count_plan(body@, expected, agg_index, compare_index),
{
    let limit = SExpr::create_unary(RelOperator::Limit { limit: Some(1), offset: 0 }, body);
    let count = Scalar::AggregateFunction {
        display_name: String::from_str("count(*)"),
        func_name: String::from_str("count"),
        distinct: false,
        args: no_scalars(),
        return_type: count_return_type(),
    };
    let count_item = ScalarItem { scalar: count, index: agg_index };
    let agg = SExpr::create_unary(
        RelOperator::Aggregate {
            group_items: no_items(),
            aggregate_functions: one_item(count_item),
            from_distinct: false,
        },
        limit,
    );
    let counted = derived_column_ref(String::from_str("count(*)"), agg_index, count_return_type());
    let constant = Scalar::ConstantExpr { value: DataValue::Int64(expected), data_type: count_return_type() };
    let compare = Scalar::ComparisonExpr {
        op: ComparisonOp::Equal,
        left: Box::new(counted),
        right: Box::new(constant),
        return_type: count_return_type(),
    };
    let compare_item = ScalarItem { scalar: compare, index: compare_index };
    let eval = SExpr::create_unary(RelOperator::EvalScalar { items: one_item(compare_item) }, agg);
    SExpr::create_unary(RelOperator::Project { columns: ColumnSet::singleton(compare_index) }, eval)
}

/// The scalar that takes the place of an unnested subquery.
fn substitute_subquery(subquery: &SubqueryExpr, plan: &SExpr, result: UnnestResult) -> (r: Result<
    Scalar,
    ErrorCode,
>)
    ensures
        match substitute(subquery@, plan@, result) {
            Ok(s) => r is Ok && r->Ok_0@ == s,
            Err(k) => r is Err && r->Err_0.kind == k,
        },
{
    match result {
        UnnestResult::SimpleJoin => {
            return Ok(Scalar::ConstantExpr { value: DataValue::Boolean(true), data_type: DataType::Boolean });
        },
        _ => {},
    }
    let rel_expr = RelExpr::with_s_expr(plan);
    let prop = match subquery.typ {
        SubqueryType::Any => rel_expr.derive_relational_prop_child(0)?,
        _ => rel_expr.derive_relational_prop_child(1)?,
    };
    match result {
        UnnestResult::MarkJoin { marker_index } => Ok(
            derived_column_ref(String::from_str("marker"), marker_index, subquery.data_type.clone()),
        ),
        _ => match prop.output_columns.first() {
            None => Err(ErrorCode::create(ErrorKind::LogicalError, "Invalid subquery")),
            Some(index) => {
                proof {
                    lemma_least_unique(prop.output_columns@, index);
                }
                Ok(derived_column_ref(subquery_column_name(index), index, subquery.data_type.clone()))
            },
        },
    }
}

impl SubqueryRewriter {
    /// A rewriter over the registry `metadata`.
    pub fn new(metadata: Metadata) -> (r: SubqueryRewriter)
        ensures
            r@ == metadata@,
    {
        SubqueryRewriter { metadata }
    }

    /// The registry, with the columns that rewriting has added.
    pub fn metadata(&self) -> (m: &Metadata)
        ensures
            m@ == self@,
    {
        &self.metadata
    }

    /// Gives the registry back.
    pub fn into_metadata(self) -> (m: Metadata)
        ensures
            m@ == self@,
    {
        self.metadata
    }

    fn add_column(&mut self, name: &str, data_type: DataType) -> (index: IndexType)
        ensures
            index == old(self)@.len(),
            final(self)@ == crate::optimizer::unnest::with_column(old(self)@, name@, data_type),
            old(self)@.is_prefix_of(final(self)@),
    {
        broadcast use lemma_prefix_trans;

        proof {
            lemma_prefix_push(self@, ColumnEntryView { name: name@, data_type, table_index: None });
        }
        self.metadata.add_column(String::from_str(name), data_type, None)
    }

    /// Rewrites the plan `s_expr` so that no scalar expression of it holds a
    /// subquery: each subquery is joined to the input of the node that held
    /// it, and a column takes its place in the expression.
    ///
    /// Returns the plan that [`rewrite_plan`] gives and leaves the registry
    /// as it says, or fails with the error that it gives. Whatever the
    /// outcome, the registry only grows.
    #[verifier::rlimit(40)]
    pub fn rewrite(&mut self, s_expr: &SExpr) -> (r: Result<SExpr, ErrorCode>)
        ensures
            match rewrite_plan(old(self)@, s_expr@) {
                Ok((e, md)) => r is Ok && r->Ok_0@ == e && final(self)@ == md,
                Err(k) => r is Err && r->Err_0.kind == k,
            },
            old(self)@.is_prefix_of(final(self)@),
        decreases s_expr, 1nat,
    {
        broadcast use lemma_prefix_trans;

        match &s_expr.plan {
            RelOperator::EvalScalar { items } => {
                let input = self.rewrite_input(s_expr, 0)?;
                let (items2, input2) = self.rewrite_items_over(items, input)?;
                Ok(SExpr::create_unary(RelOperator::EvalScalar { items: items2 }, input2))
            },
            RelOperator::Filter { predicates, is_having } => {
                let input = self.rewrite_input(s_expr, 0)?;
                let (predicates2, input2) = self.rewrite_scalars_over(predicates, input, true)?;
                Ok(
                    SExpr::create_unary(
                        RelOperator::Filter { predicates: predicates2, is_having: *is_having },
                        input2,
                    ),
                )
            },
            RelOperator::Aggregate { group_items, aggregate_functions, from_distinct } => {
                let input = self.rewrite_input(s_expr, 0)?;
                let (group2, input2) = self.rewrite_items_over(group_items, input)?;
                let (aggs2, input3) = self.rewrite_items_over(aggregate_functions, input2)?;
                Ok(
                    SExpr::create_unary(
                        RelOperator::Aggregate {
                            group_items: group2,
                            aggregate_functions: aggs2,
                            from_distinct: *from_distinct,
                        },
                        input3,
                    ),
                )
            },
            RelOperator::LogicalInnerJoin { .. } => {
                let left = self.rewrite_input(s_expr, 0)?;
                let right = self.rewrite_input(s_expr, 1)?;
                Ok(SExpr::create_binary(s_expr.plan.clone(), left, right))
            },
            RelOperator::Project { .. } | RelOperator::Limit { .. } | RelOperator::Sort { .. } => {
                let input = self.rewrite_input(s_expr, 0)?;
                Ok(SExpr::create_unary(s_expr.plan.clone(), input))
            },
            RelOperator::LogicalGet { .. } => Ok(s_expr.clone()),
            RelOperator::CrossApply { .. }
            | RelOperator::Max1Row
            | RelOperator::PhysicalHashJoin { .. }
            | RelOperator::Pattern { .. }
            | RelOperator::PhysicalScan { .. } => Err(
                ErrorCode::create(ErrorKind::LogicalError, "Invalid plan type"),
            ),
        }
    }

    /// Rewrites the input of `s_expr` at position `index`.
    fn rewrite_input(&mut self, s_expr: &SExpr, index: usize) -> (r: Result<SExpr, ErrorCode>)
        ensures
            match rewrite_child(old(self)@, s_expr@, index as int) {
                Ok((e, md)) => r is Ok && r->Ok_0@ == e && final(self)@ == md,
                Err(k) => r is Err && r->Err_0.kind == k,
            },
            old(self)@.is_prefix_of(final(self)@),
        decreases s_expr, 0nat,
    {
        broadcast use lemma_prefix_trans;

        if index < s_expr.children.len() {
            self.rewrite(&s_expr.children[index])
        } else {
            Err(ErrorCode::create(ErrorKind::LogicalError, "Invalid children index"))
        }
    }

    /// Rewrites the expressions of `items` in their order over `input`.
    #[verifier::loop_isolation(false)]
    #[verifier::rlimit(40)]
    fn rewrite_items_over(&mut self, items: &Vec<ScalarItem>, input: SExpr) -> (r: Result<
        (Vec<ScalarItem>, SExpr),
        ErrorCode,
    >)
        ensures
            match rewrite_items(old(self)@, items_view(items@), items.len() as nat, input@) {
                Ok((v, e, md)) => r is Ok && items_view(r->Ok_0.0@) == v && r->Ok_0.1@ == e && final(self)@ == md,
                Err(k) => r is Err && r->Err_0.kind == k,
            },
            old(self)@.is_prefix_of(final(self)@),
        decreases items, 0nat,
    {
        broadcast use lemma_prefix_trans;

        let ghost views = items_view(items@);
        let ghost start = input@;
        let mut plan = input;
        let mut out: Vec<ScalarItem> = Vec::new();
        let mut i: usize = 0;
        assert(items_view(out@) =~= Seq::<ScalarItemView>::empty());
        while i < items.len()
            invariant
                i <= items.len(),
                rewrite_items(old(self)@, views, i as nat, start) == Ok::<
                    (Seq<ScalarItemView>, SExprView, MetadataView),
                    ErrorKind,
                >((items_view(out@), plan@, self@)),
                old(self)@.is_prefix_of(self@),
            decreases items.len() - i,
        {
            let ghost done = items_view(out@);
            proof {
                crate::planner::scalar::lemma_items_view_index(items@, i as int);
            }
            match self.try_rewrite_subquery(&items[i].scalar, &plan, false) {
                Err(e) => {
                    proof {
                        lemma_items_fail(old(self)@, views, (i + 1) as nat, items.len() as nat, start);
                    }
                    return Err(e);
                },
                Ok((scalar, plan2)) => {
                    let item = ScalarItem { scalar, index: items[i].index };
                    out.push(item);
                    assert(items_view(out@) =~= done.push(item@));
                    plan = plan2;
                },
            }
            i += 1;
        }
        Ok((out, plan))
    }

    /// Rewrites the expressions of `scalars` in their order over `input`.
    #[verifier::loop_isolation(false)]
    #[verifier::rlimit(40)]
    fn rewrite_scalars_over(&mut self, scalars: &Vec<Scalar>, input: SExpr, in_conjunction: bool) -> (r: Result<
        (Vec<Scalar>, SExpr),
        ErrorCode,
    >)
        ensures
            match rewrite_scalars(old(self)@, scalars_view(scalars@), scalars.len() as nat, input@, in_conjunction) {
                Ok((v, e, md)) => r is Ok && scalars_view(r->Ok_0.0@) == v && r->Ok_0.1@ == e && final(self)@
                    == md,
                Err(k) => r is Err && r->Err_0.kind == k,
            },
            old(self)@.is_prefix_of(final(self)@),
        decreases scalars, 0nat,
    {
        broadcast use lemma_prefix_trans;

        let ghost views = scalars_view(scalars@);
        let ghost start = input@;
        let mut plan = input;
        let mut out: Vec<Scalar> = Vec::new();
        let mut i: usize = 0;
        assert(scalars_view(out@) =~= Seq::<ScalarView>::empty());
        while i < scalars.len()
            invariant
                i <= scalars.len(),
                rewrite_scalars(old(self)@, views, i as nat, start, in_conjunction) == Ok::<
                    (Seq<ScalarView>, SExprView, MetadataView),
                    ErrorKind,
                >((scalars_view(out@), plan@, self@)),
                old(self)@.is_prefix_of(self@),
            decreases scalars.len() - i,
        {
            let ghost done = scalars_view(out@);
            match self.try_rewrite_subquery(&scalars[i], &plan, in_conjunction) {
                Err(e) => {
                    proof {
                        lemma_scalars_fail(
                            old(self)@,
                            views,
                            (i + 1) as nat,
                            scalars.len() as nat,
                            start,
                            in_conjunction,
                        );
                    }
                    return Err(e);
                },
                Ok((scalar, plan2)) => {
                    out.push(scalar);
                    assert(scalars_view(out@) =~= done.push(scalar@));
                    plan = plan2;
                },
            }
            i += 1;
        }
        Ok((out, plan))
    }

    /// Rewrites the two operands of the binary expression `parent` left to
    /// right.
    fn rewrite_operands(&mut self, parent: &Scalar, s_expr: &SExpr) -> (r: Result<(Scalar, Scalar, SExpr), ErrorCode>)
        requires
            parent is AndExpr || parent is OrExpr || parent is ComparisonExpr,
        ensures
            match rewrite_scalar(old(self)@, left_operand(parent@), s_expr@, false) {
                Err(k) => r is Err && r->Err_0.kind == k,
                Ok((l, plan1, m1)) => match rewrite_scalar(m1, right_operand(parent@), plan1, false) {
                    Err(k) => r is Err && r->Err_0.kind == k,
                    Ok((rr, plan2, m2)) => r is Ok && r->Ok_0.0@ == l && r->Ok_0.1@ == rr && r->Ok_0.2@ == plan2
                        && final(self)@ == m2,
                },
            },
            old(self)@.is_prefix_of(final(self)@),
        decreases parent, 0nat,
    {
        broadcast use lemma_prefix_trans;

        let (left, right) = match parent {
            Scalar::AndExpr { left, right, .. } => (left, right),
            Scalar::OrExpr { left, right, .. } => (left, right),
            Scalar::ComparisonExpr { left, right, .. } => (left, right),
            _ => {
                return Err(ErrorCode::create(ErrorKind::LogicalError, "Invalid scalar"));
            },
        };
        let (l, plan1) = self.try_rewrite_subquery(left, s_expr, false)?;
        let (r, plan2) = self.try_rewrite_subquery(right, &plan1, false)?;
        Ok((l, r, plan2))
    }

    /// Takes the subqueries out of the expression `scalar`, over the plan
    /// `s_expr` that the expression is evaluated on.
    ///
    /// Returns the expression and the plan that [`rewrite_scalar`] gives and
    /// leaves the registry as it says, or fails with the error that it
    /// gives.
    #[verifier::rlimit(40)]
    pub fn try_rewrite_subquery(&mut self, scalar: &Scalar, s_expr: &SExpr, is_conjunctive_predicate: bool) -> (r:
        Result<(Scalar, SExpr), ErrorCode>)
        ensures
            match rewrite_scalar(old(self)@, scalar@, s_expr@, is_conjunctive_predicate) {
                Ok((s, e, md)) => r is Ok && r->Ok_0.0@ == s && r->Ok_0.1@ == e && final(self)@ == md,
                Err(k) => r is Err && r->Err_0.kind == k,
            },
            old(self)@.is_prefix_of(final(self)@),
        decreases scalar, 1nat,
    {
        broadcast use lemma_prefix_trans;

        match scalar {
            Scalar::BoundColumnRef { .. } => Ok((scalar.clone(), s_expr.clone())),
            Scalar::ConstantExpr { .. } => Ok((scalar.clone(), s_expr.clone())),
            Scalar::AggregateFunction { .. } => Ok((scalar.clone(), s_expr.clone())),
            Scalar::AndExpr { left, right, return_type } => {
                let (l, r, plan) = self.rewrite_operands(scalar, s_expr)?;
                Ok(
                    (
                        Scalar::AndExpr { left: Box::new(l), right: Box::new(r), return_type: return_type.clone() },
                        plan,
                    ),
                )
            },
            Scalar::OrExpr { left, right, return_type } => {
                let (l, r, plan) = self.rewrite_operands(scalar, s_expr)?;
                Ok(
                    (
                        Scalar::OrExpr { left: Box::new(l), right: Box::new(r), return_type: return_type.clone() },
                        plan,
                    ),
                )
            },
            Scalar::ComparisonExpr { op, left, right, return_type } => {
                let (l, r, plan) = self.rewrite_operands(scalar, s_expr)?;
                Ok(
                    (
                        Scalar::ComparisonExpr {
                            op: *op,
                            left: Box::new(l),
                            right: Box::new(r),
                            return_type: return_type.clone(),
                        },
                        plan,
                    ),
                )
            },
            Scalar::FunctionCall { func_name, arguments, return_type } => {
                let (args, plan) = self.rewrite_scalars_over(arguments, s_expr.clone(), false)?;
                Ok(
                    (
                        Scalar::FunctionCall {
                            func_name: func_name.clone(),
                            arguments: args,
                            return_type: return_type.clone(),
                        },
                        plan,
                    ),
                )
            },
            Scalar::CastExpr { argument, from_type, target_type } => {
                let (arg, plan) = self.try_rewrite_subquery(argument, s_expr, false)?;
                Ok(
                    (
                        Scalar::CastExpr {
                            argument: Box::new(arg),
                            from_type: from_type.clone(),
                            target_type: target_type.clone(),
                        },
                        plan,
                    ),
                )
            },
            Scalar::SubqueryExpr(subquery) => {
                proof {
                    reveal_with_fuel(crate::planner::plans::scalar_view, 2);
                }
                // The body of the subquery may hold subqueries of its own.
                let body = self.rewrite(&subquery.subquery)?;
                let rewritten = SubqueryExpr {
                    typ: subquery.typ,
                    subquery: body,
                    child_expr: match &subquery.child_expr {
                        Some(c) => Some(Box::new(clone_scalar(c))),
                        None => None,
                    },
                    data_type: subquery.data_type.clone(),
                    outer_columns: subquery.outer_columns.clone(),
                };
                assert(rewritten@ == (SubqueryExprView { subquery: Box::new(body@), ..subquery@ }));
                let (plan, result) = self.unnest_subquery(s_expr, &rewritten, is_conjunctive_predicate)?;
                let replacement = substitute_subquery(&rewritten, &plan, result)?;
                Ok((replacement, plan))
            },
        }
    }

    /// Joins the subquery `subquery` to the plan `left`.
    ///
    /// Returns the plan and the way of attaching that [`unnest`] gives and
    /// leaves the registry as it says, or fails with the error that it
    /// gives.
    pub fn unnest_subquery(&mut self, left: &SExpr, subquery: &SubqueryExpr, is_conjunctive_predicate: bool) -> (r:
        Result<(SExpr, UnnestResult), ErrorCode>)
        ensures
            match unnest(old(self)@, left@, subquery@, is_conjunctive_predicate) {
                Ok((e, result, md)) => r is Ok && r->Ok_0.0@ == e && r->Ok_0.1 == result && final(self)@ == md,
                Err(k) => r is Err && r->Err_0.kind == k,
            },
            old(self)@.is_prefix_of(final(self)@),
    {
        broadcast use lemma_prefix_trans;

        match subquery.typ {
            SubqueryType::Scalar => {
                let prop = derive_relational_prop(&subquery.subquery)?;
                let guarded = SExpr::create_unary(RelOperator::Max1Row, subquery.subquery.clone());
                Ok(attach_subquery(left.clone(), guarded, &prop.outer_columns, &subquery.outer_columns))
            },
            SubqueryType::Exists | SubqueryType::NotExists => {
                if is_conjunctive_predicate {
                    match try_decorrelate_subquery(left, subquery)? {
                        Some(join) => {
                            return Ok((join, UnnestResult::SimpleJoin));
                        },
                        None => {},
                    }
                }
                self.unnest_exists(left, subquery)
            },
            SubqueryType::Any => self.unnest_any(left, subquery),
            SubqueryType::All => Err(
                ErrorCode::create(ErrorKind::UnsupportedFeature, "Unsupported subquery type: All"),
            ),
        }
    }

    /// Attaches the plan that counts the rows of an `EXISTS` or `NOT EXISTS`
    /// subquery.
    fn unnest_exists(&mut self, left: &SExpr, subquery: &SubqueryExpr) -> (r: Result<
        (SExpr, UnnestResult),
        ErrorCode,
    >)
        ensures
            match crate::optimizer::unnest::unnest_exists_by_count(old(self)@, left@, subquery@) {
                Ok((e, result, md)) => r is Ok && r->Ok_0.0@ == e && r->Ok_0.1 == result && final(self)@ == md,
                Err(k) => r is Err && r->Err_0.kind == k,
            },
            old(self)@.is_prefix_of(final(self)@),
    {
        broadcast use lemma_prefix_trans;

        // `EXISTS` becomes `COUNT(*) = 1` over one row of the subquery at
        // most, `NOT EXISTS` becomes `COUNT(*) = 0`.
        let agg_index = self.add_column("count(*)", count_return_type());
        let compare_index = self.add_column("subquery", DataType::Boolean);
        let expected: i64 = match subquery.typ {
            SubqueryType::Exists => 1,
            _ => 0,
        };
        let counted = count_subquery(subquery.subquery.clone(), expected, agg_index, compare_index);
        let prop = derive_relational_prop(&counted)?;
        Ok(attach_subquery(left.clone(), counted, &prop.outer_columns, &subquery.outer_columns))
    }

    /// Attaches an `ANY` subquery by a mark join.
    fn unnest_any(&mut self, left: &SExpr, subquery: &SubqueryExpr) -> (r: Result<(SExpr, UnnestResult), ErrorCode>)
        ensures
            match crate::optimizer::unnest::unnest_any(old(self)@, left@, subquery@) {
                Ok((e, result, md)) => r is Ok && r->Ok_0.0@ == e && r->Ok_0.1 == result && final(self)@ == md,
                Err(k) => r is Err && r->Err_0.kind == k,
            },
            old(self)@.is_prefix_of(final(self)@),
    {
        broadcast use lemma_prefix_trans;

        let prop = derive_relational_prop(&subquery.subquery)?;
        let index = match prop.output_columns.first() {
            Some(index) => index,
            None => {
                return Err(ErrorCode::create(ErrorKind::LogicalError, "Invalid subquery"));
            },
        };
        proof {
            lemma_least_unique(prop.output_columns@, index);
        }
        if !prop.outer_columns.is_empty() {
            return Err(
                ErrorCode::create(ErrorKind::LogicalError, "Unsupported subquery type: Correlated AnySubquery"),
            );
        }
        let operand = match &subquery.child_expr {
            Some(c) => clone_scalar(c),
            None => {
                return Err(ErrorCode::create(ErrorKind::LogicalError, "Invalid subquery"));
            },
        };
        let left_condition = derived_column_ref(subquery_column_name(index), index, subquery.data_type.clone());
        // The marker column holds the verdict of the comparison: true,
        // false or, where a NULL leaves it open, NULL.
        let marker_index = self.add_column("marker", DataType::Nullable(Box::new(DataType::Boolean)));
        let mark_join = RelOperator::LogicalInnerJoin {
            left_conditions: one_scalar(left_condition),
            right_conditions: one_scalar(operand),
            other_conditions: no_scalars(),
            join_type: JoinType::Mark,
            marker_index: Some(marker_index),
        };
        Ok(
            (
                SExpr::create_binary(mark_join, subquery.subquery.clone(), left.clone()),
                UnnestResult::MarkJoin { marker_index },
            ),
        )
    }
}

} // verus!
