//! Scalar expressions, relational operators and the expression tree that
//! holds them, each with the mathematical value it stands for.

use crate::datavalues::data_type::DataType;
use crate::datavalues::data_value::DataValue;
use crate::datavalues::data_value::DataValueView;
use crate::planner::column_set::ColumnSet;
use crate::planner::column_set::IndexType;
use vstd::prelude::*;

verus! {

/// How the rows of the two sides of a join are combined.
#[derive(Clone, Copy, Debug, PartialEq, Eq, Structural)]
pub enum JoinType {
    Inner,
    Left,
    Semi,
    Anti,
    Cross,
    Mark,
}

/// The kind of a subquery inside a scalar expression.
#[derive(Clone, Copy, Debug, PartialEq, Eq, Structural)]
pub enum SubqueryType {
    Any,
    All,
    Scalar,
    Exists,
    NotExists,
}

#[derive(Clone, Copy, Debug, PartialEq, Eq, Structural)]
pub enum ComparisonOp {
    Equal,
    NotEqual,
    GT,
    LT,
    GTE,
    LTE,
}

/// The kind of a relational operator, without its arguments.
#[derive(Clone, Copy, Debug, PartialEq, Eq, Structural)]
pub enum RelOp {
    LogicalGet,
    LogicalInnerJoin,
    PhysicalScan,
    PhysicalHashJoin,
    Project,
    EvalScalar,
    Filter,
    Aggregate,
    Sort,
    Limit,
    CrossApply,
    Max1Row,
    /// In a pattern: a node of any kind.
    Pattern,
}

/// One sort key of a `Sort` operator.
#[derive(Clone, Copy, Debug, PartialEq, Eq, Structural)]
pub struct SortItem {
    pub index: IndexType,
    pub asc: Option<bool>,
    pub nulls_first: Option<bool>,
}

/// A column as a scalar expression sees it.
#[derive(Debug, PartialEq, Eq)]
pub struct ColumnBinding {
    pub database_name: Option<String>,
    pub table_name: Option<String>,
    pub column_name: String,
    pub index: IndexType,
    pub data_type: DataType,
    pub visible_in_unqualified_wildcard: bool,
}

pub ghost struct ColumnBindingView {
    pub database_name: Option<Seq<char>>,
    pub table_name: Option<Seq<char>>,
    pub column_name: Seq<char>,
    pub index: IndexType,
    pub data_type: DataType,
    pub visible_in_unqualified_wildcard: bool,
}

/// A scalar expression.
#[derive(Debug, PartialEq, Eq)]
pub enum Scalar {
    BoundColumnRef { column: ColumnBinding },
    ConstantExpr { value: DataValue, data_type: DataType },
    AndExpr { left: Box<Scalar>, right: Box<Scalar>, return_type: DataType },
    OrExpr { left: Box<Scalar>, right: Box<Scalar>, return_type: DataType },
    ComparisonExpr { op: ComparisonOp, left: Box<Scalar>, right: Box<Scalar>, return_type: DataType },
    AggregateFunction {
        display_name: String,
        func_name: String,
        distinct: bool,
        args: Vec<Scalar>,
        return_type: DataType,
    },
    FunctionCall { func_name: String, arguments: Vec<Scalar>, return_type: DataType },
    CastExpr { argument: Box<Scalar>, from_type: DataType, target_type: DataType },
    SubqueryExpr(SubqueryExpr),
}

/// A subquery in a scalar position.
#[derive(Debug, PartialEq, Eq)]
pub struct SubqueryExpr {
    pub typ: SubqueryType,
    pub subquery: SExpr,
    /// The operand that an `Any` or `All` subquery is compared with.
    pub child_expr: Option<Box<Scalar>>,
    pub data_type: DataType,
    /// The columns of enclosing scopes that the subquery refers to.
    pub outer_columns: ColumnSet,
}

/// A scalar expression together with the column that holds its result.
#[derive(Debug, PartialEq, Eq)]
pub struct ScalarItem {
    pub scalar: Scalar,
    pub index: IndexType,
}

/// A relational operator with its arguments.
#[derive(Debug, PartialEq, Eq)]
pub enum RelOperator {
    LogicalGet { table_index: IndexType, columns: ColumnSet },
    LogicalInnerJoin {
        left_conditions: Vec<Scalar>,
        right_conditions: Vec<Scalar>,
        other_conditions: Vec<Scalar>,
        join_type: JoinType,
        marker_index: Option<IndexType>,
    },
    PhysicalScan { table_index: IndexType, columns: ColumnSet },
    PhysicalHashJoin {
        build_keys: Vec<Scalar>,
        probe_keys: Vec<Scalar>,
        other_conditions: Vec<Scalar>,
        join_type: JoinType,
        marker_index: Option<IndexType>,
    },
    Project { columns: ColumnSet },
    EvalScalar { items: Vec<ScalarItem> },
    Filter { predicates: Vec<Scalar>, is_having: bool },
    Aggregate { group_items: Vec<ScalarItem>, aggregate_functions: Vec<ScalarItem>, from_distinct: bool },
    Sort { items: Vec<SortItem> },
    Limit { limit: Option<usize>, offset: usize },
    CrossApply { correlated_columns: ColumnSet },
    Max1Row,
    Pattern { plan_type: RelOp },
}

/// A node of a plan: an operator and its inputs.
#[derive(Debug, PartialEq, Eq)]
pub struct SExpr {
    pub plan: RelOperator,
    pub children: Vec<SExpr>,
}

pub ghost enum ScalarView {
    BoundColumnRef { column: ColumnBindingView },
    ConstantExpr { value: DataValueView, data_type: DataType },
    AndExpr { left: Box<ScalarView>, right: Box<ScalarView>, return_type: DataType },
    OrExpr { left: Box<ScalarView>, right: Box<ScalarView>, return_type: DataType },
    ComparisonExpr { op: ComparisonOp, left: Box<ScalarView>, right: Box<ScalarView>, return_type: DataType },
    AggregateFunction {
        display_name: Seq<char>,
        func_name: Seq<char>,
        distinct: bool,
        args: Seq<ScalarView>,
        return_type: DataType,
    },
    FunctionCall { func_name: Seq<char>, arguments: Seq<ScalarView>, return_type: DataType },
    CastExpr { argument: Box<ScalarView>, from_type: DataType, target_type: DataType },
    SubqueryExpr(SubqueryExprView),
}

pub ghost struct SubqueryExprView {
    pub typ: SubqueryType,
    pub subquery: Box<SExprView>,
    pub child_expr: Option<Box<ScalarView>>,
    pub data_type: DataType,
    pub outer_columns: Set<IndexType>,
}

pub ghost struct ScalarItemView {
    pub scalar: ScalarView,
    pub index: IndexType,
}

pub ghost enum RelOperatorView {
    LogicalGet { table_index: IndexType, columns: Set<IndexType> },
    LogicalInnerJoin {
        left_conditions: Seq<ScalarView>,
        right_conditions: Seq<ScalarView>,
        other_conditions: Seq<ScalarView>,
        join_type: JoinType,
        marker_index: Option<IndexType>,
    },
    PhysicalScan { table_index: IndexType, columns: Set<IndexType> },
    PhysicalHashJoin {
        build_keys: Seq<ScalarView>,
        probe_keys: Seq<ScalarView>,
        other_conditions: Seq<ScalarView>,
        join_type: JoinType,
        marker_index: Option<IndexType>,
    },
    Project { columns: Set<IndexType> },
    EvalScalar { items: Seq<ScalarItemView> },
    Filter { predicates: Seq<ScalarView>, is_having: bool },
    Aggregate { group_items: Seq<ScalarItemView>, aggregate_functions: Seq<ScalarItemView>, from_distinct: bool },
    Sort { items: Seq<SortItem> },
    Limit { limit: Option<usize>, offset: usize },
    CrossApply { correlated_columns: Set<IndexType> },
    Max1Row,
    Pattern { plan_type: RelOp },
}

pub ghost struct SExprView {
    pub plan: RelOperatorView,
    pub children: Seq<SExprView>,
}

pub open spec fn opt_string_view(s: Option<String>) -> Option<Seq<char>> {
    match s {
        Some(s) => Some(s@),
        None => None,
    }
}

impl View for ColumnBinding {
    type V = ColumnBindingView;

    open spec fn view(&self) -> ColumnBindingView {
        ColumnBindingView {
            database_name: opt_string_view(self.database_name),
            table_name: opt_string_view(self.table_name),
            column_name: self.column_name@,
            index: self.index,
            data_type: self.data_type,
            visible_in_unqualified_wildcard: self.visible_in_unqualified_wildcard,
        }
    }
}

/// The value of a scalar expression.
pub open spec fn scalar_view(s: Scalar) -> ScalarView
    decreases s,
{
    match s {
        Scalar::BoundColumnRef { column } => ScalarView::BoundColumnRef { column: column@ },
        Scalar::ConstantExpr { value, data_type } => ScalarView::ConstantExpr { value: value@, data_type },
        Scalar::AndExpr { left, right, return_type } => ScalarView::AndExpr {
            left: Box::new(scalar_view(*left)),
            right: Box::new(scalar_view(*right)),
            return_type,
        },
        Scalar::OrExpr { left, right, return_type } => ScalarView::OrExpr {
            left: Box::new(scalar_view(*left)),
            right: Box::new(scalar_view(*right)),
            return_type,
        },
        Scalar::ComparisonExpr { op, left, right, return_type } => ScalarView::ComparisonExpr {
            op,
            left: Box::new(scalar_view(*left)),
            right: Box::new(scalar_view(*right)),
            return_type,
        },
        Scalar::AggregateFunction { display_name, func_name, distinct, args, return_type } => {
            ScalarView::AggregateFunction {
                display_name: display_name@,
                func_name: func_name@,
                distinct,
                args: scalars_view(args@),
                return_type,
            }
        },
        Scalar::FunctionCall { func_name, arguments, return_type } => ScalarView::FunctionCall {
            func_name: func_name@,
            arguments: scalars_view(arguments@),
            return_type,
        },
        Scalar::CastExpr { argument, from_type, target_type } => ScalarView::CastExpr {
            argument: Box::new(scalar_view(*argument)),
            from_type,
            target_type,
        },
        Scalar::SubqueryExpr(subquery) => ScalarView::SubqueryExpr(subquery_view(subquery)),
    }
}

/// The values of a sequence of scalar expressions, one by one.
pub open spec fn scalars_view(v: Seq<Scalar>) -> Seq<ScalarView>
    decreases v,
{
    Seq::new(v.len(), |i: int| if 0 <= i < v.len() { scalar_view(v[i]) } else { arbitrary() })
}

pub open spec fn subquery_view(s: SubqueryExpr) -> SubqueryExprView
    decreases s,
{
    SubqueryExprView {
        typ: s.typ,
        subquery: Box::new(s_expr_view(s.subquery)),
        child_expr: match s.child_expr {
            Some(c) => Some(Box::new(scalar_view(*c))),
            None => None,
        },
        data_type: s.data_type,
        outer_columns: s.outer_columns@,
    }
}

pub open spec fn item_view(item: ScalarItem) -> ScalarItemView
    decreases item,
{
    ScalarItemView { scalar: scalar_view(item.scalar), index: item.index }
}

pub open spec fn items_view(v: Seq<ScalarItem>) -> Seq<ScalarItemView>
    decreases v,
{
    Seq::new(v.len(), |i: int| if 0 <= i < v.len() { item_view(v[i]) } else { arbitrary() })
}

/// The value of an operator.
pub open spec fn operator_view(op: RelOperator) -> RelOperatorView
    decreases op,
{
    match op {
        RelOperator::LogicalGet { table_index, columns } => RelOperatorView::LogicalGet {
            table_index,
            columns: columns@,
        },
        RelOperator::LogicalInnerJoin {
            left_conditions,
            right_conditions,
            other_conditions,
            join_type,
            marker_index,
        } => RelOperatorView::LogicalInnerJoin {
            left_conditions: scalars_view(left_conditions@),
            right_conditions: scalars_view(right_conditions@),
            other_conditions: scalars_view(other_conditions@),
            join_type,
            marker_index,
        },
        RelOperator::PhysicalScan { table_index, columns } => RelOperatorView::PhysicalScan {
            table_index,
            columns: columns@,
        },
        RelOperator::PhysicalHashJoin { build_keys, probe_keys, other_conditions, join_type, marker_index } => {
            RelOperatorView::PhysicalHashJoin {
                build_keys: scalars_view(build_keys@),
                probe_keys: scalars_view(probe_keys@),
                other_conditions: scalars_view(other_conditions@),
                join_type,
                marker_index,
            }
        },
        RelOperator::Project { columns } => RelOperatorView::Project { columns: columns@ },
        RelOperator::EvalScalar { items } => RelOperatorView::EvalScalar { items: items_view(items@) },
        RelOperator::Filter { predicates, is_having } => RelOperatorView::Filter {
            predicates: scalars_view(predicates@),
            is_having,
        },
        RelOperator::Aggregate { group_items, aggregate_functions, from_distinct } => {
            RelOperatorView::Aggregate {
                group_items: items_view(group_items@),
                aggregate_functions: items_view(aggregate_functions@),
                from_distinct,
            }
        },
        RelOperator::Sort { items } => RelOperatorView::Sort { items: items@ },
        RelOperator::Limit { limit, offset } => RelOperatorView::Limit { limit, offset },
        RelOperator::CrossApply { correlated_columns } => RelOperatorView::CrossApply {
            correlated_columns: correlated_columns@,
        },
        RelOperator::Max1Row => RelOperatorView::Max1Row,
        RelOperator::Pattern { plan_type } => RelOperatorView::Pattern { plan_type },
    }
}

/// The value of a plan.
pub open spec fn s_expr_view(e: SExpr) -> SExprView
    decreases e,
{
    SExprView { plan: operator_view(e.plan), children: s_exprs_view(e.children@) }
}

pub open spec fn s_exprs_view(v: Seq<SExpr>) -> Seq<SExprView>
    decreases v,
{
    Seq::new(v.len(), |i: int| if 0 <= i < v.len() { s_expr_view(v[i]) } else { arbitrary() })
}

impl View for Scalar {
    type V = ScalarView;

    open spec fn view(&self) -> ScalarView {
        scalar_view(*self)
    }
}

impl View for SubqueryExpr {
    type V = SubqueryExprView;

    open spec fn view(&self) -> SubqueryExprView {
        subquery_view(*self)
    }
}

impl View for ScalarItem {
    type V = ScalarItemView;

    open spec fn view(&self) -> ScalarItemView {
        item_view(*self)
    }
}

impl View for RelOperator {
    type V = RelOperatorView;

    open spec fn view(&self) -> RelOperatorView {
        operator_view(*self)
    }
}

impl View for SExpr {
    type V = SExprView;

    open spec fn view(&self) -> SExprView {
        s_expr_view(*self)
    }
}

fn clone_opt_string(s: &Option<String>) -> (r: Option<String>)
    ensures
        opt_string_view(r) == opt_string_view(*s),
{
    match s {
        Some(s) => Some(s.clone()),
        None => None,
    }
}

impl Clone for ColumnBinding {
    fn clone(&self) -> (r: ColumnBinding)
        ensures
            r@ == self@,
    {
        ColumnBinding {
            database_name: clone_opt_string(&self.database_name),
            table_name: clone_opt_string(&self.table_name),
            column_name: self.column_name.clone(),
            index: self.index,
            data_type: self.data_type.clone(),
            visible_in_unqualified_wildcard: self.visible_in_unqualified_wildcard,
        }
    }
}

/// A copy of a scalar expression.
pub fn clone_scalar(s: &Scalar) -> (r: Scalar)
    ensures
        r@ == s@,
    decreases s,
{
    match s {
        Scalar::BoundColumnRef { column } => Scalar::BoundColumnRef { column: column.clone() },
        Scalar::ConstantExpr { value, data_type } => Scalar::ConstantExpr {
            value: value.clone(),
            data_type: data_type.clone(),
        },
        Scalar::AndExpr { left, right, return_type } => Scalar::AndExpr {
            left: Box::new(clone_scalar(left)),
            right: Box::new(clone_scalar(right)),
            return_type: return_type.clone(),
        },
        Scalar::OrExpr { left, right, return_type } => Scalar::OrExpr {
            left: Box::new(clone_scalar(left)),
            right: Box::new(clone_scalar(right)),
            return_type: return_type.clone(),
        },
        Scalar::ComparisonExpr { op, left, right, return_type } => Scalar::ComparisonExpr {
            op: *op,
            left: Box::new(clone_scalar(left)),
            right: Box::new(clone_scalar(right)),
            return_type: return_type.clone(),
        },
        Scalar::AggregateFunction { display_name, func_name, distinct, args, return_type } => {
            Scalar::AggregateFunction {
                display_name: display_name.clone(),
                func_name: func_name.clone(),
                distinct: *distinct,
                args: clone_scalars(args),
                return_type: return_type.clone(),
            }
        },
        Scalar::FunctionCall { func_name, arguments, return_type } => Scalar::FunctionCall {
            func_name: func_name.clone(),
            arguments: clone_scalars(arguments),
            return_type: return_type.clone(),
        },
        Scalar::CastExpr { argument, from_type, target_type } => Scalar::CastExpr {
            argument: Box::new(clone_scalar(argument)),
            from_type: from_type.clone(),
            target_type: target_type.clone(),
        },
        Scalar::SubqueryExpr(subquery) => Scalar::SubqueryExpr(clone_subquery(subquery)),
    }
}

/// A copy of a vector of scalar expressions.
pub fn clone_scalars(v: &Vec<Scalar>) -> (r: Vec<Scalar>)
    ensures
        scalars_view(r@) == scalars_view(v@),
    decreases v,
{
    let mut out: Vec<Scalar> = Vec::new();
    let mut i: usize = 0;
    while i < v.len()
        invariant
            i <= v.len(),
            out.len() == i,
            forall|j: int| 0 <= j < i ==> out[j]@ == v[j]@,
        decreases v.len() - i,
    {
        out.push(clone_scalar(&v[i]));
        i += 1;
    }
    assert(scalars_view(out@) =~= scalars_view(v@));
    out
}

/// A copy of a subquery expression.
pub fn clone_subquery(s: &SubqueryExpr) -> (r: SubqueryExpr)
    ensures
        r@ == s@,
    decreases s,
{
    SubqueryExpr {
        typ: s.typ,
        subquery: clone_s_expr(&s.subquery),
        child_expr: match &s.child_expr {
            Some(c) => Some(Box::new(clone_scalar(c))),
            None => None,
        },
        data_type: s.data_type.clone(),
        outer_columns: s.outer_columns.clone(),
    }
}

/// A copy of a vector of scalar items.
pub fn clone_items(v: &Vec<ScalarItem>) -> (r: Vec<ScalarItem>)
    ensures
        items_view(r@) == items_view(v@),
    decreases v,
{
    let mut out: Vec<ScalarItem> = Vec::new();
    let mut i: usize = 0;
    while i < v.len()
        invariant
            i <= v.len(),
            out.len() == i,
            forall|j: int| 0 <= j < i ==> out[j]@ == v[j]@,
        decreases v.len() - i,
    {
        out.push(ScalarItem { scalar: clone_scalar(&v[i].scalar), index: v[i].index });
        i += 1;
    }
    assert(items_view(out@) =~= items_view(v@));
    out
}

/// A copy of an operator.
pub fn clone_operator(op: &RelOperator) -> (r: RelOperator)
    ensures
        r@ == op@,
    decreases op,
{
    match op {
        RelOperator::LogicalGet { table_index, columns } => RelOperator::LogicalGet {
            table_index: *table_index,
            columns: columns.clone(),
        },
        RelOperator::LogicalInnerJoin {
            left_conditions,
            right_conditions,
            other_conditions,
            join_type,
            marker_index,
        } => RelOperator::LogicalInnerJoin {
            left_conditions: clone_scalars(left_conditions),
            right_conditions: clone_scalars(right_conditions),
            other_conditions: clone_scalars(other_conditions),
            join_type: *join_type,
            marker_index: *marker_index,
        },
        RelOperator::PhysicalScan { table_index, columns } => RelOperator::PhysicalScan {
            table_index: *table_index,
            columns: columns.clone(),
        },
        RelOperator::PhysicalHashJoin { build_keys, probe_keys, other_conditions, join_type, marker_index } => {
            RelOperator::PhysicalHashJoin {
                build_keys: clone_scalars(build_keys),
                probe_keys: clone_scalars(probe_keys),
                other_conditions: clone_scalars(other_conditions),
                join_type: *join_type,
                marker_index: *marker_index,
            }
        },
        RelOperator::Project { columns } => RelOperator::Project { columns: columns.clone() },
        RelOperator::EvalScalar { items } => RelOperator::EvalScalar { items: clone_items(items) },
        RelOperator::Filter { predicates, is_having } => RelOperator::Filter {
            predicates: clone_scalars(predicates),
            is_having: *is_having,
        },
        RelOperator::Aggregate { group_items, aggregate_functions, from_distinct } => RelOperator::Aggregate {
            group_items: clone_items(group_items),
            aggregate_functions: clone_items(aggregate_functions),
            from_distinct: *from_distinct,
        },
        RelOperator::Sort { items } => {
            let copy = items.clone();
            assert(copy@ =~= items@);
            RelOperator::Sort { items: copy }
        },
        RelOperator::Limit { limit, offset } => RelOperator::Limit { limit: *limit, offset: *offset },
        RelOperator::CrossApply { correlated_columns } => RelOperator::CrossApply {
            correlated_columns: correlated_columns.clone(),
        },
        RelOperator::Max1Row => RelOperator::Max1Row,
        RelOperator::Pattern { plan_type } => RelOperator::Pattern { plan_type: *plan_type },
    }
}

/// A copy of a plan.
pub fn clone_s_expr(e: &SExpr) -> (r: SExpr)
    ensures
        r@ == e@,
    decreases e,
{
    let mut children: Vec<SExpr> = Vec::new();
    let mut i: usize = 0;
    while i < e.children.len()
        invariant
            i <= e.children.len(),
            children.len() == i,
            forall|j: int| 0 <= j < i ==> children[j]@ == e.children[j]@,
        decreases e.children.len() - i,
    {
        children.push(clone_s_expr(&e.children[i]));
        i += 1;
    }
    assert(s_exprs_view(children@) =~= s_exprs_view(e.children@));
    SExpr { plan: clone_operator(&e.plan), children }
}

impl Clone for Scalar {
    fn clone(&self) -> (r: Scalar)
        ensures
            r@ == self@,
    {
        clone_scalar(self)
    }
}

impl Clone for SubqueryExpr {
    fn clone(&self) -> (r: SubqueryExpr)
        ensures
            r@ == self@,
    {
        clone_subquery(self)
    }
}

impl Clone for ScalarItem {
    fn clone(&self) -> (r: ScalarItem)
        ensures
            r@ == self@,
    {
        ScalarItem { scalar: clone_scalar(&self.scalar), index: self.index }
    }
}

impl Clone for RelOperator {
    fn clone(&self) -> (r: RelOperator)
        ensures
            r@ == self@,
    {
        clone_operator(self)
    }
}

impl Clone for SExpr {
    fn clone(&self) -> (r: SExpr)
        ensures
            r@ == self@,
    {
        clone_s_expr(self)
    }
}

} // verus!
