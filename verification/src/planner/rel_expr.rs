//! Relational properties: the columns that a plan produces and the columns
//! of enclosing scopes that it refers to.

use crate::error::ErrorCode;
use crate::error::ErrorKind;
use crate::planner::column_set::ColumnSet;
use crate::planner::column_set::IndexType;
use crate::planner::plans::RelOp;
use crate::planner::plans::RelOperator;
use crate::planner::plans::RelOperatorView;
use crate::planner::plans::SExpr;
use crate::planner::plans::SExprView;
use crate::planner::s_expr::arity_of;
use crate::planner::s_expr::rel_op_of;
use crate::planner::scalar::item_indexes;
use crate::planner::scalar::items_indexes;
use crate::planner::scalar::items_used_columns;
use crate::planner::scalar::scalars_used_columns;
use crate::planner::scalar::used_columns_of;
use crate::planner::scalar::used_columns_of_items;
use vstd::prelude::*;

verus! {

/// What is derived from a plan.
#[derive(Debug, PartialEq, Eq)]
pub struct RelationalProperty {
    /// The columns that the plan makes visible to its parent.
    pub output_columns: ColumnSet,
    /// The columns that the plan refers to and that nothing inside it
    /// produces: its references to enclosing scopes.
    pub outer_columns: ColumnSet,
}

pub ghost struct RelationalPropertyView {
    pub output_columns: Set<IndexType>,
    pub outer_columns: Set<IndexType>,
}

impl View for RelationalProperty {
    type V = RelationalPropertyView;

    open spec fn view(&self) -> RelationalPropertyView {
        RelationalPropertyView { output_columns: self.output_columns@, outer_columns: self.outer_columns@ }
    }
}

/// The columns that the expressions of an operator refer to.
pub open spec fn operator_used_columns(op: RelOperatorView) -> Set<IndexType> {
    match op {
        RelOperatorView::EvalScalar { items } => used_columns_of_items(items),
        RelOperatorView::Filter { predicates, .. } => used_columns_of(predicates),
        RelOperatorView::Aggregate { group_items, aggregate_functions, .. } => used_columns_of_items(
            group_items,
        ).union(used_columns_of_items(aggregate_functions)),
        RelOperatorView::LogicalInnerJoin { left_conditions, right_conditions, other_conditions, .. } => {
            used_columns_of(left_conditions).union(used_columns_of(right_conditions)).union(
                used_columns_of(other_conditions),
            )
        },
        RelOperatorView::PhysicalHashJoin { build_keys, probe_keys, other_conditions, .. } => used_columns_of(
            build_keys,
        ).union(used_columns_of(probe_keys)).union(used_columns_of(other_conditions)),
        _ => Set::<IndexType>::empty(),
    }
}

/// The set that holds the marker column of a join, if it has one.
pub open spec fn marker_columns(marker_index: Option<IndexType>) -> Set<IndexType> {
    match marker_index {
        Some(m) => Set::<IndexType>::empty().insert(m),
        None => Set::<IndexType>::empty(),
    }
}

/// The columns that an operator makes visible, given those that its inputs
/// make visible together.
///
/// A scan gives its columns and a projection the columns it keeps. Computed
/// columns are added to those of the input; an aggregation shows only its
/// group and aggregate columns. A join shows both sides and its marker
/// column, if it has one. Every other operator hands its input through.
pub open spec fn operator_output(op: RelOperatorView, inputs: Set<IndexType>) -> Set<IndexType> {
    match op {
        RelOperatorView::LogicalGet { columns, .. } => columns,
        RelOperatorView::PhysicalScan { columns, .. } => columns,
        RelOperatorView::Project { columns } => columns,
        RelOperatorView::EvalScalar { items } => inputs.union(item_indexes(items)),
        RelOperatorView::Aggregate { group_items, aggregate_functions, .. } => item_indexes(group_items).union(
            item_indexes(aggregate_functions),
        ),
        RelOperatorView::LogicalInnerJoin { marker_index, .. } => inputs.union(marker_columns(marker_index)),
        RelOperatorView::PhysicalHashJoin { marker_index, .. } => inputs.union(marker_columns(marker_index)),
        _ => inputs,
    }
}

/// The references to enclosing scopes of a node: the columns that its own
/// expressions use and its inputs do not produce, and the references of its
/// inputs, without the columns that the node itself makes visible.
pub open spec fn outer_of(
    output: Set<IndexType>,
    used: Set<IndexType>,
    inputs_output: Set<IndexType>,
    inputs_outer: Set<IndexType>,
) -> Set<IndexType> {
    used.difference(inputs_output).union(inputs_outer).difference(output)
}

/// The property of a node, given the properties of its inputs taken
/// together.
pub open spec fn combine(op: RelOperatorView, inputs: RelationalPropertyView) -> RelationalPropertyView {
    let output = operator_output(op, inputs.output_columns);
    RelationalPropertyView {
        output_columns: output,
        outer_columns: outer_of(output, operator_used_columns(op), inputs.output_columns, inputs.outer_columns),
    }
}

/// The property of the input at position `index`, `None` where there is no
/// such input or it has no property.
pub open spec fn derive_child(e: SExprView, index: int) -> Option<RelationalPropertyView>
    decreases e, 0nat,
{
    if 0 <= index < e.children.len() {
        derive_prop(e.children[index])
    } else {
        None
    }
}

/// The relational property of a plan, computed bottom-up. `None` where the
/// plan holds a pattern node, or a node with fewer inputs than its operator
/// takes.
pub open spec fn derive_prop(e: SExprView) -> Option<RelationalPropertyView>
    decreases e, 1nat,
{
    let empty = RelationalPropertyView {
        output_columns: Set::<IndexType>::empty(),
        outer_columns: Set::<IndexType>::empty(),
    };
    if e.plan is Pattern {
        None
    } else if arity_of(rel_op_of(e.plan)) == 0 {
        Some(combine(e.plan, empty))
    } else if arity_of(rel_op_of(e.plan)) == 1 {
        match derive_child(e, 0) {
            Some(input) => Some(combine(e.plan, input)),
            None => None,
        }
    } else {
        match (derive_child(e, 0), derive_child(e, 1)) {
            (Some(left), Some(right)) => Some(
                combine(
                    e.plan,
                    RelationalPropertyView {
                        output_columns: left.output_columns.union(right.output_columns),
                        outer_columns: left.outer_columns.union(right.outer_columns),
                    },
                ),
            ),
            _ => None,
        }
    }
}

fn used_by_operator(op: &RelOperator) -> (r: ColumnSet)
    ensures
        r@ == operator_used_columns(op@),
{
    match op {
        RelOperator::EvalScalar { items } => items_used_columns(items),
        RelOperator::Filter { predicates, .. } => scalars_used_columns(predicates),
        RelOperator::Aggregate { group_items, aggregate_functions, .. } => items_used_columns(group_items).union(
            &items_used_columns(aggregate_functions),
        ),
        RelOperator::LogicalInnerJoin { left_conditions, right_conditions, other_conditions, .. } => {
            scalars_used_columns(left_conditions).union(&scalars_used_columns(right_conditions)).union(
                &scalars_used_columns(other_conditions),
            )
        },
        RelOperator::PhysicalHashJoin { build_keys, probe_keys, other_conditions, .. } => scalars_used_columns(
            build_keys,
        ).union(&scalars_used_columns(probe_keys)).union(&scalars_used_columns(other_conditions)),
        _ => ColumnSet::new(),
    }
}

fn with_marker(inputs: &ColumnSet, marker_index: &Option<IndexType>) -> (r: ColumnSet)
    ensures
        r@ == inputs@.union(marker_columns(*marker_index)),
{
    let mut r = inputs.clone();
    match marker_index {
        Some(m) => {
            r.insert(*m);
            assert(r@ =~= inputs@.union(marker_columns(*marker_index)));
        },
        None => {
            assert(r@ =~= inputs@.union(marker_columns(*marker_index)));
        },
    }
    r
}

fn output_of_operator(op: &RelOperator, inputs: &ColumnSet) -> (r: ColumnSet)
    ensures
        r@ == operator_output(op@, inputs@),
{
    match op {
        RelOperator::LogicalGet { columns, .. } => columns.clone(),
        RelOperator::PhysicalScan { columns, .. } => columns.clone(),
        RelOperator::Project { columns } => columns.clone(),
        RelOperator::EvalScalar { items } => inputs.union(&items_indexes(items)),
        RelOperator::Aggregate { group_items, aggregate_functions, .. } => items_indexes(group_items).union(
            &items_indexes(aggregate_functions),
        ),
        RelOperator::LogicalInnerJoin { marker_index, .. } => with_marker(inputs, marker_index),
        RelOperator::PhysicalHashJoin { marker_index, .. } => with_marker(inputs, marker_index),
        _ => inputs.clone(),
    }
}

fn combine_properties(op: &RelOperator, inputs: &RelationalProperty) -> (r: RelationalProperty)
    ensures
        r@ == combine(op@, inputs@),
{
    let output = output_of_operator(op, &inputs.output_columns);
    let used = used_by_operator(op);
    let outer = used.difference(&inputs.output_columns).union(&inputs.outer_columns).difference(&output);
    RelationalProperty { output_columns: output, outer_columns: outer }
}

fn operator_arity(op: RelOp) -> (n: usize)
    ensures
        n == arity_of(op),
{
    match op {
        RelOp::LogicalGet | RelOp::PhysicalScan | RelOp::Pattern => 0,
        RelOp::LogicalInnerJoin | RelOp::PhysicalHashJoin | RelOp::CrossApply => 2,
        _ => 1,
    }
}

/// Derives the relational property of a plan.
///
/// Fails with a `LogicalError` exactly where [`derive_prop`] gives none.
pub fn derive_relational_prop(e: &SExpr) -> (r: Result<RelationalProperty, ErrorCode>)
    ensures
        match derive_prop(e@) {
            Some(p) => r is Ok && r->Ok_0@ == p,
            None => r is Err && r->Err_0.kind == ErrorKind::LogicalError,
        },
    decreases e,
{
    match &e.plan {
        RelOperator::Pattern { .. } => {
            return Err(
                ErrorCode::create(ErrorKind::LogicalError, "Cannot derive relational property for pattern plan"),
            );
        },
        _ => {},
    }
    let arity = operator_arity(e.plan.rel_op());
    if arity == 0 {
        let empty = RelationalProperty { output_columns: ColumnSet::new(), outer_columns: ColumnSet::new() };
        Ok(combine_properties(&e.plan, &empty))
    } else if arity == 1 {
        if e.children.len() < 1 {
            return Err(ErrorCode::create(ErrorKind::LogicalError, "Invalid children index"));
        }
        let input = derive_relational_prop(&e.children[0])?;
        Ok(combine_properties(&e.plan, &input))
    } else {
        if e.children.len() < 1 {
            return Err(ErrorCode::create(ErrorKind::LogicalError, "Invalid children index"));
        }
        let left = derive_relational_prop(&e.children[0])?;
        if e.children.len() < 2 {
            return Err(ErrorCode::create(ErrorKind::LogicalError, "Invalid children index"));
        }
        let right = derive_relational_prop(&e.children[1])?;
        let inputs = RelationalProperty {
            output_columns: left.output_columns.union(&right.output_columns),
            outer_columns: left.outer_columns.union(&right.outer_columns),
        };
        Ok(combine_properties(&e.plan, &inputs))
    }
}

/// A plan as the subject of property derivation.
pub struct RelExpr<'a> {
    expr: &'a SExpr,
}

impl<'a> RelExpr<'a> {
    pub closed spec fn s_expr(self) -> SExprView {
        self.expr@
    }

    pub fn with_s_expr(s_expr: &'a SExpr) -> (r: RelExpr<'a>)
        ensures
            r.s_expr() == s_expr@,
    {
        RelExpr { expr: s_expr }
    }

    /// The property of the plan.
    pub fn derive_relational_prop(&self) -> (r: Result<RelationalProperty, ErrorCode>)
        ensures
            match derive_prop(self.s_expr()) {
                Some(p) => r is Ok && r->Ok_0@ == p,
                None => r is Err && r->Err_0.kind == ErrorKind::LogicalError,
            },
    {
        derive_relational_prop(self.expr)
    }

    /// The property of the input at position `index` alone.
    pub fn derive_relational_prop_child(&self, index: usize) -> (r: Result<RelationalProperty, ErrorCode>)
        ensures
            match derive_child(self.s_expr(), index as int) {
                Some(p) => r is Ok && r->Ok_0@ == p,
                None => r is Err && r->Err_0.kind == ErrorKind::LogicalError,
            },
    {
        if index < self.expr.children.len() {
            derive_relational_prop(&self.expr.children[index])
        } else {
            Err(ErrorCode::create(ErrorKind::LogicalError, "Invalid children index"))
        }
    }
}

} // verus!
