//! What is read off a scalar expression: its type and the columns it uses.

use crate::datavalues::data_type::DataType;
use crate::planner::column_set::ColumnSet;
use crate::planner::column_set::IndexType;
use crate::planner::plans::item_view;
use crate::planner::plans::items_view;
use crate::planner::plans::scalar_view;
use crate::planner::plans::scalars_view;
use crate::planner::plans::Scalar;
use crate::planner::plans::ScalarItem;
use crate::planner::plans::ScalarItemView;
use crate::planner::plans::ScalarView;
use vstd::prelude::*;

verus! {

/// The type of the values of a scalar expression.
pub open spec fn scalar_type(s: ScalarView) -> DataType {
    match s {
        ScalarView::BoundColumnRef { column } => column.data_type,
        ScalarView::ConstantExpr { data_type, .. } => data_type,
        ScalarView::AndExpr { return_type, .. } => return_type,
        ScalarView::OrExpr { return_type, .. } => return_type,
        ScalarView::ComparisonExpr { return_type, .. } => return_type,
        ScalarView::AggregateFunction { return_type, .. } => return_type,
        ScalarView::FunctionCall { return_type, .. } => return_type,
        ScalarView::CastExpr { target_type, .. } => target_type,
        ScalarView::SubqueryExpr(subquery) => subquery.data_type,
    }
}

/// The columns that a scalar expression refers to. A subquery counts with
/// the columns of enclosing scopes that it refers to.
pub open spec fn used_columns(s: ScalarView) -> Set<IndexType>
    decreases s,
{
    match s {
        ScalarView::BoundColumnRef { column } => Set::<IndexType>::empty().insert(column.index),
        ScalarView::ConstantExpr { .. } => Set::<IndexType>::empty(),
        ScalarView::AndExpr { left, right, .. } => used_columns(*left).union(used_columns(*right)),
        ScalarView::OrExpr { left, right, .. } => used_columns(*left).union(used_columns(*right)),
        ScalarView::ComparisonExpr { left, right, .. } => used_columns(*left).union(used_columns(*right)),
        ScalarView::AggregateFunction { args, .. } => used_columns_of(args),
        ScalarView::FunctionCall { arguments, .. } => used_columns_of(arguments),
        ScalarView::CastExpr { argument, .. } => used_columns(*argument),
        ScalarView::SubqueryExpr(subquery) => subquery.outer_columns,
    }
}

/// The columns that any expression of `v` refers to.
pub open spec fn used_columns_of(v: Seq<ScalarView>) -> Set<IndexType>
    decreases v,
{
    Set::new(|c: IndexType| exists|i: int| 0 <= i < v.len() && used_columns(v[i]).contains(c))
}

/// The columns that the expression of any item of `v` refers to.
pub open spec fn used_columns_of_items(v: Seq<ScalarItemView>) -> Set<IndexType> {
    Set::new(|c: IndexType| exists|i: int| 0 <= i < v.len() && used_columns(v[i].scalar).contains(c))
}

/// The result columns of the items of `v`.
pub open spec fn item_indexes(v: Seq<ScalarItemView>) -> Set<IndexType> {
    Set::new(|c: IndexType| exists|i: int| 0 <= i < v.len() && v[i].index == c)
}

/// Whether a scalar expression holds a subquery anywhere in it.
pub open spec fn has_subquery(s: ScalarView) -> bool
    decreases s,
{
    match s {
        ScalarView::BoundColumnRef { .. } => false,
        ScalarView::ConstantExpr { .. } => false,
        ScalarView::AndExpr { left, right, .. } => has_subquery(*left) || has_subquery(*right),
        ScalarView::OrExpr { left, right, .. } => has_subquery(*left) || has_subquery(*right),
        ScalarView::ComparisonExpr { left, right, .. } => has_subquery(*left) || has_subquery(*right),
        ScalarView::AggregateFunction { args, .. } => exists|i: int|
            0 <= i < args.len() && has_subquery(args[i]),
        ScalarView::FunctionCall { arguments, .. } => exists|i: int|
            0 <= i < arguments.len() && has_subquery(arguments[i]),
        ScalarView::CastExpr { argument, .. } => has_subquery(*argument),
        ScalarView::SubqueryExpr(_) => true,
    }
}

/// The columns that a scalar expression refers to.
pub fn scalar_used_columns(s: &Scalar) -> (r: ColumnSet)
    ensures
        r@ == used_columns(s@),
    decreases s,
{
    match s {
        Scalar::BoundColumnRef { column } => ColumnSet::singleton(column.index),
        Scalar::ConstantExpr { .. } => ColumnSet::new(),
        Scalar::AndExpr { left, right, .. } => scalar_used_columns(left).union(&scalar_used_columns(right)),
        Scalar::OrExpr { left, right, .. } => scalar_used_columns(left).union(&scalar_used_columns(right)),
        Scalar::ComparisonExpr { left, right, .. } => scalar_used_columns(left).union(
            &scalar_used_columns(right),
        ),
        Scalar::AggregateFunction { args, .. } => scalars_used_columns(args),
        Scalar::FunctionCall { arguments, .. } => scalars_used_columns(arguments),
        Scalar::CastExpr { argument, .. } => scalar_used_columns(argument),
        Scalar::SubqueryExpr(subquery) => {
            proof {
                reveal_with_fuel(scalar_view, 2);
            }
            subquery.outer_columns.clone()
        },
    }
}

/// The columns that any expression of `v` refers to.
pub fn scalars_used_columns(v: &Vec<Scalar>) -> (r: ColumnSet)
    ensures
        r@ == used_columns_of(scalars_view(v@)),
    decreases v,
{
    let ghost views = scalars_view(v@);
    let mut acc = ColumnSet::new();
    let mut i: usize = 0;
    while i < v.len()
        invariant
            i <= v.len(),
            views == scalars_view(v@),
            forall|c: IndexType|
                acc@.contains(c) <==> exists|j: int| 0 <= j < i && used_columns(views[j]).contains(c),
        decreases v.len() - i,
    {
        let used = scalar_used_columns(&v[i]);
        let ghost prev = acc@;
        acc = acc.union(&used);
        assert forall|c: IndexType|
            acc@.contains(c) <==> exists|j: int| 0 <= j < i + 1 && used_columns(views[j]).contains(c) by {
            if prev.contains(c) {
                let j = choose|j: int| 0 <= j < i && used_columns(views[j]).contains(c);
                assert(0 <= j < i + 1 && used_columns(views[j]).contains(c));
            }
            if used@.contains(c) {
                assert(0 <= i < i + 1 && used_columns(views[i as int]).contains(c));
            }
            if exists|j: int| 0 <= j < i + 1 && used_columns(views[j]).contains(c) {
                let j = choose|j: int| 0 <= j < i + 1 && used_columns(views[j]).contains(c);
                if j < i {
                    assert(prev.contains(c));
                }
            }
        }
        i += 1;
    }
    assert(acc@ =~= used_columns_of(views));
    acc
}

/// What the view of a vector of items holds at position `j`.
pub proof fn lemma_items_view_index(v: Seq<ScalarItem>, j: int)
    requires
        0 <= j < v.len(),
    ensures
        items_view(v)[j].scalar == scalar_view(v[j].scalar),
        items_view(v)[j].index == v[j].index,
{
    reveal_with_fuel(item_view, 2);
}

/// The columns that the expression of any item of `v` refers to.
pub fn items_used_columns(v: &Vec<ScalarItem>) -> (r: ColumnSet)
    ensures
        r@ == used_columns_of_items(items_view(v@)),
{
    let mut acc = ColumnSet::new();
    let mut i: usize = 0;
    while i < v.len()
        invariant
            i <= v.len(),
            forall|c: IndexType|
                #![trigger acc@.contains(c)]
                acc@.contains(c) <==> exists|j: int|
                    #![trigger v@[j]]
                    0 <= j < i && used_columns(scalar_view(v@[j].scalar)).contains(c),
        decreases v.len() - i,
    {
        let used = scalar_used_columns(&v[i].scalar);
        let ghost prev = acc@;
        acc = acc.union(&used);
        assert forall|c: IndexType| #![trigger acc@.contains(c)]
            acc@.contains(c) <==> exists|j: int|
                #![trigger v@[j]]
                0 <= j < i + 1 && used_columns(scalar_view(v@[j].scalar)).contains(c) by {
            if prev.contains(c) {
                let j = choose|j: int|
                    #![trigger v@[j]]
                    0 <= j < i && used_columns(scalar_view(v@[j].scalar)).contains(c);
                assert(0 <= j < i + 1 && used_columns(scalar_view(v@[j].scalar)).contains(c));
            }
            if used@.contains(c) {
                assert(0 <= i < i + 1 && used_columns(scalar_view(v@[i as int].scalar)).contains(c));
            }
            if exists|j: int|
                #![trigger v@[j]]
                0 <= j < i + 1 && used_columns(scalar_view(v@[j].scalar)).contains(c) {
                let j = choose|j: int|
                    #![trigger v@[j]]
                    0 <= j < i + 1 && used_columns(scalar_view(v@[j].scalar)).contains(c);
                if j < i {
                    assert(prev.contains(c));
                }
            }
        }
        i += 1;
    }
    proof {
        let views = items_view(v@);
        assert forall|c: IndexType| acc@.contains(c) <==> used_columns_of_items(views).contains(c) by {
            if acc@.contains(c) {
                let j = choose|j: int|
                    #![trigger v@[j]]
                    0 <= j < i && used_columns(scalar_view(v@[j].scalar)).contains(c);
                lemma_items_view_index(v@, j);
                assert(0 <= j < views.len() && used_columns(views[j].scalar).contains(c));
            }
            if used_columns_of_items(views).contains(c) {
                let j = choose|j: int| 0 <= j < views.len() && used_columns(views[j].scalar).contains(c);
                lemma_items_view_index(v@, j);
                assert(0 <= j < i && used_columns(scalar_view(v@[j].scalar)).contains(c));
            }
        }
        assert(acc@ =~= used_columns_of_items(views));
    }
    acc
}

/// The result columns of the items of `v`.
pub fn items_indexes(v: &Vec<ScalarItem>) -> (r: ColumnSet)
    ensures
        r@ == item_indexes(items_view(v@)),
{
    let mut acc = ColumnSet::new();
    let mut i: usize = 0;
    while i < v.len()
        invariant
            i <= v.len(),
            forall|c: IndexType|
                #![trigger acc@.contains(c)]
                acc@.contains(c) <==> exists|j: int| #![trigger v@[j]] 0 <= j < i && v@[j].index == c,
        decreases v.len() - i,
    {
        let ghost prev = acc@;
        acc.insert(v[i].index);
        assert forall|c: IndexType| #![trigger acc@.contains(c)]
            acc@.contains(c) <==> exists|j: int| #![trigger v@[j]] 0 <= j < i + 1 && v@[j].index == c by {
            if prev.contains(c) {
                let j = choose|j: int| #![trigger v@[j]] 0 <= j < i && v@[j].index == c;
                assert(0 <= j < i + 1 && v@[j].index == c);
            }
            if c == v@[i as int].index {
                assert(0 <= i < i + 1 && v@[i as int].index == c);
            }
            if exists|j: int| #![trigger v@[j]] 0 <= j < i + 1 && v@[j].index == c {
                let j = choose|j: int| #![trigger v@[j]] 0 <= j < i + 1 && v@[j].index == c;
                if j < i {
                    assert(prev.contains(c));
                }
            }
        }
        i += 1;
    }
    proof {
        let views = items_view(v@);
        assert forall|c: IndexType| acc@.contains(c) <==> item_indexes(views).contains(c) by {
            if acc@.contains(c) {
                let j = choose|j: int| #![trigger v@[j]] 0 <= j < i && v@[j].index == c;
                lemma_items_view_index(v@, j);
                assert(0 <= j < views.len() && views[j].index == c);
            }
            if item_indexes(views).contains(c) {
                let j = choose|j: int| 0 <= j < views.len() && views[j].index == c;
                lemma_items_view_index(v@, j);
                assert(0 <= j < i && v@[j].index == c);
            }
        }
        assert(acc@ =~= item_indexes(views));
    }
    acc
}

impl Scalar {
    /// The type of the values of the expression.
    pub fn data_type(&self) -> (r: DataType)
        ensures
            r == scalar_type(self@),
    {
        match self {
            Scalar::BoundColumnRef { column } => column.data_type.clone(),
            Scalar::ConstantExpr { data_type, .. } => data_type.clone(),
            Scalar::AndExpr { return_type, .. } => return_type.clone(),
            Scalar::OrExpr { return_type, .. } => return_type.clone(),
            Scalar::ComparisonExpr { return_type, .. } => return_type.clone(),
            Scalar::AggregateFunction { return_type, .. } => return_type.clone(),
            Scalar::FunctionCall { return_type, .. } => return_type.clone(),
            Scalar::CastExpr { target_type, .. } => target_type.clone(),
            Scalar::SubqueryExpr(subquery) => {
                proof {
                    reveal_with_fuel(scalar_view, 2);
                }
                subquery.data_type.clone()
            },
        }
    }

    /// The columns that the expression refers to.
    pub fn used_columns(&self) -> (r: ColumnSet)
        ensures
            r@ == used_columns(self@),
    {
        scalar_used_columns(self)
    }
}

/// The expression `scalar` as a value of `target_type`: itself where it has
/// that type already, else a cast of it.
pub open spec fn wrap_cast_spec(scalar: ScalarView, target_type: DataType) -> ScalarView {
    if scalar_type(scalar) == target_type {
        scalar
    } else {
        ScalarView::CastExpr { argument: Box::new(scalar), from_type: scalar_type(scalar), target_type }
    }
}

/// Casts `scalar` to `target_type` unless it has that type already.
pub fn wrap_cast_if_needed(scalar: Scalar, target_type: &DataType) -> (r: Scalar)
    ensures
        r@ == wrap_cast_spec(scalar@, *target_type),
{
    let from_type = scalar.data_type();
    if from_type.same(target_type) {
        scalar
    } else {
        Scalar::CastExpr { argument: Box::new(scalar), from_type, target_type: target_type.clone() }
    }
}

} // verus!
