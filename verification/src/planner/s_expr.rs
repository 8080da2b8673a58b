//! Building plans, reading them and matching them against patterns.

use crate::error::ErrorCode;
use crate::error::ErrorKind;
use crate::planner::plans::s_exprs_view;
use crate::planner::plans::RelOp;
use crate::planner::plans::RelOperator;
use crate::planner::plans::RelOperatorView;
use crate::planner::plans::SExpr;
use crate::planner::plans::SExprView;
use vstd::prelude::*;

verus! {

/// The kind of an operator. A pattern node has the kind that it stands for.
pub open spec fn rel_op_of(op: RelOperatorView) -> RelOp {
    match op {
        RelOperatorView::LogicalGet { .. } => RelOp::LogicalGet,
        RelOperatorView::LogicalInnerJoin { .. } => RelOp::LogicalInnerJoin,
        RelOperatorView::PhysicalScan { .. } => RelOp::PhysicalScan,
        RelOperatorView::PhysicalHashJoin { .. } => RelOp::PhysicalHashJoin,
        RelOperatorView::Project { .. } => RelOp::Project,
        RelOperatorView::EvalScalar { .. } => RelOp::EvalScalar,
        RelOperatorView::Filter { .. } => RelOp::Filter,
        RelOperatorView::Aggregate { .. } => RelOp::Aggregate,
        RelOperatorView::Sort { .. } => RelOp::Sort,
        RelOperatorView::Limit { .. } => RelOp::Limit,
        RelOperatorView::CrossApply { .. } => RelOp::CrossApply,
        RelOperatorView::Max1Row => RelOp::Max1Row,
        RelOperatorView::Pattern { plan_type } => plan_type,
    }
}

/// The number of inputs that an operator of kind `op` takes; a pattern node
/// that stands for any kind takes none.
pub open spec fn arity_of(op: RelOp) -> nat {
    match op {
        RelOp::LogicalGet | RelOp::PhysicalScan | RelOp::Pattern => 0,
        RelOp::LogicalInnerJoin | RelOp::PhysicalHashJoin | RelOp::CrossApply => 2,
        _ => 1,
    }
}

/// Whether every node of the plan has as many inputs as its operator takes.
pub open spec fn well_shaped(e: SExprView) -> bool
    decreases e,
{
    &&& e.children.len() == arity_of(rel_op_of(e.plan))
    &&& forall|i: int| 0 <= i < e.children.len() ==> well_shaped(#[trigger] e.children[i])
}

/// Whether a plan has the shape of a pattern: at every node the kinds agree,
/// unless the pattern's node stands for any kind, the numbers of inputs
/// agree, and the inputs match in turn.
pub open spec fn matches_pattern(e: SExprView, pattern: SExprView) -> bool
    decreases e,
{
    &&& rel_op_of(pattern.plan) != RelOp::Pattern ==> rel_op_of(e.plan) == rel_op_of(pattern.plan)
    &&& e.children.len() == pattern.children.len()
    &&& forall|i: int|
        0 <= i < e.children.len() ==> matches_pattern(#[trigger] e.children[i], pattern.children[i])
}

impl RelOperator {
    /// The kind of the operator.
    pub fn rel_op(&self) -> (r: RelOp)
        ensures
            r == rel_op_of(self@),
    {
        match self {
            RelOperator::LogicalGet { .. } => RelOp::LogicalGet,
            RelOperator::LogicalInnerJoin { .. } => RelOp::LogicalInnerJoin,
            RelOperator::PhysicalScan { .. } => RelOp::PhysicalScan,
            RelOperator::PhysicalHashJoin { .. } => RelOp::PhysicalHashJoin,
            RelOperator::Project { .. } => RelOp::Project,
            RelOperator::EvalScalar { .. } => RelOp::EvalScalar,
            RelOperator::Filter { .. } => RelOp::Filter,
            RelOperator::Aggregate { .. } => RelOp::Aggregate,
            RelOperator::Sort { .. } => RelOp::Sort,
            RelOperator::Limit { .. } => RelOp::Limit,
            RelOperator::CrossApply { .. } => RelOp::CrossApply,
            RelOperator::Max1Row => RelOp::Max1Row,
            RelOperator::Pattern { plan_type } => *plan_type,
        }
    }
}

impl SExpr {
    /// A node with the given operator and inputs.
    pub fn create(plan: RelOperator, children: Vec<SExpr>) -> (r: SExpr)
        ensures
            r@ == (SExprView { plan: plan@, children: s_exprs_view(children@) }),
    {
        SExpr { plan, children }
    }

    /// A node without inputs.
    pub fn create_leaf(plan: RelOperator) -> (r: SExpr)
        ensures
            r@ == (SExprView { plan: plan@, children: Seq::<SExprView>::empty() }),
    {
        let r = SExpr { plan, children: Vec::new() };
        assert(r@.children =~= Seq::<SExprView>::empty());
        r
    }

    /// A node with one input.
    pub fn create_unary(plan: RelOperator, child: SExpr) -> (r: SExpr)
        ensures
            r@ == (SExprView { plan: plan@, children: seq![child@] }),
    {
        let mut children: Vec<SExpr> = Vec::new();
        children.push(child);
        let r = SExpr { plan, children };
        assert(r@.children =~= seq![child@]);
        r
    }

    /// A node with two inputs.
    pub fn create_binary(plan: RelOperator, left_child: SExpr, right_child: SExpr) -> (r: SExpr)
        ensures
            r@ == (SExprView { plan: plan@, children: seq![left_child@, right_child@] }),
    {
        let mut children: Vec<SExpr> = Vec::new();
        children.push(left_child);
        children.push(right_child);
        let r = SExpr { plan, children };
        assert(r@.children =~= seq![left_child@, right_child@]);
        r
    }

    /// The operator of the node.
    pub fn plan(&self) -> (r: &RelOperator)
        ensures
            r@ == self@.plan,
    {
        &self.plan
    }

    /// The number of inputs of the node.
    pub fn arity(&self) -> (n: usize)
        ensures
            n == self@.children.len(),
    {
        self.children.len()
    }

    /// The input at position `n`, or a `LogicalError` where the node has no
    /// such input.
    pub fn child(&self, n: usize) -> (r: Result<&SExpr, ErrorCode>)
        ensures
            n < self@.children.len() ==> r is Ok && r->Ok_0@ == self@.children[n as int],
            n >= self@.children.len() ==> r is Err && r->Err_0.kind == ErrorKind::LogicalError,
    {
        if n < self.children.len() {
            Ok(&self.children[n])
        } else {
            Err(ErrorCode::create(ErrorKind::LogicalError, "Invalid children index"))
        }
    }

    /// Whether the plan has the shape of `pattern`.
    pub fn match_pattern(&self, pattern: &SExpr) -> (r: bool)
        ensures
            r == matches_pattern(self@, pattern@),
        decreases self,
    {
        let pattern_op = pattern.plan.rel_op();
        if pattern_op != RelOp::Pattern && self.plan.rel_op() != pattern_op {
            return false;
        }
        if self.children.len() != pattern.children.len() {
            return false;
        }
        let mut i: usize = 0;
        while i < self.children.len()
            invariant
                i <= self.children.len(),
                self.children.len() == pattern.children.len(),
                forall|j: int| 0 <= j < i ==> matches_pattern(#[trigger] self@.children[j], pattern@.children[j]),
            decreases self.children.len() - i,
        {
            if !self.children[i].match_pattern(&pattern.children[i]) {
                assert(!matches_pattern(self@.children[i as int], pattern@.children[i as int]));
                return false;
            }
            i += 1;
        }
        true
    }
}

} // verus!
