//! The description of a hash join: its key expressions, its type and the
//! state that a mark join keeps for each row of the build side.

use crate::datavalues::block::BlockView;
use crate::datavalues::block::DataBlock;
use crate::datavalues::column::Column;
use crate::datavalues::column::ColumnView;
use crate::datavalues::data_type::DataType;
use crate::datavalues::data_value::DataValue;
use crate::datavalues::data_value::DataValueView;
use crate::error::ErrorCode;
use crate::error::ErrorKind;
use crate::hash_join::table::RowPtr;
use crate::planner::column_set::IndexType;
use crate::planner::plans::JoinType;
use vstd::prelude::*;

verus! {

/// The verdict of a mark join on a row: the comparison is true, it is
/// false, or a `NULL` leaves it open.
#[derive(Clone, Copy, Debug, PartialEq, Eq, Structural)]
pub enum MarkerKind {
    True,
    False,
    Null,
}

/// The name of a column of a block.
pub type ColumnID = String;

/// A scalar expression of a physical plan.
#[derive(Debug, PartialEq, Eq)]
pub enum PhysicalScalar {
    /// The column named `column_id` of the block.
    Variable { column_id: ColumnID, data_type: DataType },
    /// The same value in every row.
    Constant { value: DataValue, data_type: DataType },
}

/// An expression that is ready to be evaluated against a block.
#[derive(Debug, PartialEq, Eq)]
pub enum EvalNode {
    Variable { id: ColumnID },
    Constant { value: DataValue, data_type: DataType },
}

pub ghost enum EvalNodeView {
    Variable { id: Seq<char> },
    Constant { value: DataValueView, data_type: DataType },
}

impl View for EvalNode {
    type V = EvalNodeView;

    open spec fn view(&self) -> EvalNodeView {
        match self {
            EvalNode::Variable { id } => EvalNodeView::Variable { id: id@ },
            EvalNode::Constant { value, data_type } => EvalNodeView::Constant { value: value@, data_type: *data_type },
        }
    }
}

/// The views of a sequence of expressions, one by one.
pub open spec fn nodes_view(v: Seq<EvalNode>) -> Seq<EvalNodeView> {
    Seq::new(v.len(), |i: int| v[i]@)
}

impl PhysicalScalar {
    /// The type of the values of the expression.
    pub open spec fn type_of(self) -> DataType {
        match self {
            PhysicalScalar::Variable { data_type, .. } => data_type,
            PhysicalScalar::Constant { data_type, .. } => data_type,
        }
    }

    /// The expression as it is evaluated.
    pub open spec fn node(self) -> EvalNodeView {
        match self {
            PhysicalScalar::Variable { column_id, .. } => EvalNodeView::Variable { id: column_id@ },
            PhysicalScalar::Constant { value, data_type } => EvalNodeView::Constant { value: value@, data_type },
        }
    }

    pub fn data_type(&self) -> (t: DataType)
        ensures
            t == self.type_of(),
    {
        match self {
            PhysicalScalar::Variable { data_type, .. } => data_type.clone(),
            PhysicalScalar::Constant { data_type, .. } => data_type.clone(),
        }
    }
}

/// The column that evaluating `node` against `block` gives: the first
/// column of that name, or the constant once for each row. `None` where
/// the block has no column of the name, or the constant is no value of its
/// type.
pub open spec fn eval_spec(node: EvalNodeView, block: BlockView) -> Option<ColumnView> {
    match node {
        EvalNodeView::Variable { id } => match block.index_of(id) {
            Some(i) => Some(block.columns[i]),
            None => None,
        },
        EvalNodeView::Constant { value, data_type } => if value.fits(data_type) {
            Some(ColumnView { data_type, values: Seq::new(block.num_rows(), |r: int| value) })
        } else {
            None
        },
    }
}

/// The value that `node` has in a row with the given fields and values:
/// that of the first field of the name, or the constant. `None` where no
/// field has the name.
pub open spec fn eval_row_spec(
    node: EvalNodeView,
    fields: Seq<crate::datavalues::column::DataFieldView>,
    row: Seq<DataValueView>,
) -> Option<DataValueView> {
    match node {
        EvalNodeView::Variable { id } => match crate::datavalues::block::first_named(fields, id) {
            Some(i) => Some(row[i]),
            None => None,
        },
        EvalNodeView::Constant { value, .. } => Some(value),
    }
}

/// Turns the expressions of a plan into expressions that can be evaluated.
pub struct Evaluator {}

impl Evaluator {
    /// The expression `scalar` made ready for evaluation.
    pub fn eval_physical_scalar(scalar: &PhysicalScalar) -> (r: Result<EvalNode, ErrorCode>)
        ensures
            r is Ok,
            r->Ok_0@ == scalar.node(),
    {
        match scalar {
            PhysicalScalar::Variable { column_id, .. } => Ok(EvalNode::Variable { id: column_id.clone() }),
            PhysicalScalar::Constant { value, data_type } => Ok(
                EvalNode::Constant { value: value.clone(), data_type: data_type.clone() },
            ),
        }
    }
}

impl EvalNode {
    /// Evaluates the expression against `block`.
    ///
    /// Returns the column that [`eval_spec`] gives, and an
    /// `EvaluationError` exactly where it gives none.
    pub fn eval(&self, block: &DataBlock) -> (r: Result<Column, ErrorCode>)
        ensures
            block@.wf(),
            match eval_spec(self@, block@) {
                Some(c) => r is Ok && r->Ok_0@ == c,
                None => r is Err && r->Err_0.kind == ErrorKind::EvaluationError,
            },
    {
        let rows = block.num_rows();
        match self {
            EvalNode::Variable { id } => match block.index_of(id.as_str()) {
                Some(i) => Ok(block.column(i).clone()),
                None => Err(ErrorCode::create(ErrorKind::EvaluationError, "Unknown column")),
            },
            EvalNode::Constant { value, data_type } => {
                if !value.has_type(data_type) {
                    return Err(
                        ErrorCode::create(ErrorKind::EvaluationError, "Constant does not belong to its type"),
                    );
                }
                let mut column = Column::empty(data_type.clone());
                let mut r: usize = 0;
                assert(Seq::<DataValueView>::empty() =~= Seq::new(0nat, |k: int| value@));
                while r < rows
                    invariant
                        r <= rows,
                        value@.fits(*data_type),
                        column@ == (ColumnView { data_type: *data_type, values: Seq::new(r as nat, |k: int| value@) }),
                    decreases rows - r,
                {
                    column = column.push(value.clone());
                    assert(Seq::new(r as nat, |k: int| value@).push(value@) =~= Seq::new(
                        (r + 1) as nat,
                        |k: int| value@,
                    ));
                    r += 1;
                }
                assert(column@.values =~= eval_spec(self@, block@)->Some_0.values);
                Ok(column)
            },
        }
    }
}

impl Clone for EvalNode {
    fn clone(&self) -> (r: EvalNode)
        ensures
            r@ == self@,
    {
        match self {
            EvalNode::Variable { id } => EvalNode::Variable { id: id.clone() },
            EvalNode::Constant { value, data_type } => EvalNode::Constant {
                value: value.clone(),
                data_type: data_type.clone(),
            },
        }
    }
}

/// What a hash join is to do.
pub struct HashJoinDesc {
    /// The types of the build keys, which decide the encoding of the keys.
    pub key_types: Vec<DataType>,
    pub build_keys: Vec<EvalNode>,
    pub probe_keys: Vec<EvalNode>,
    pub join_type: JoinType,
    pub other_predicate: Option<EvalNode>,
    /// For a mark join, one verdict for each row of the build side, in the
    /// order of the rows.
    pub marker: Vec<MarkerKind>,
    pub marker_index: Option<IndexType>,
}

/// The scratch space of one prober, kept between calls to spare
/// allocations.
pub struct ProbeState {
    pub probe_indexs: Vec<u32>,
    pub build_indexs: Vec<Option<RowPtr>>,
}

impl ProbeState {
    /// An empty scratch space.
    pub fn create() -> (r: ProbeState)
        ensures
            r.probe_indexs@.len() == 0,
            r.build_indexs@.len() == 0,
    {
        ProbeState { probe_indexs: Vec::new(), build_indexs: Vec::new() }
    }

    /// Empties the scratch space.
    pub fn clear(&mut self)
        ensures
            final(self).probe_indexs@.len() == 0,
            final(self).build_indexs@.len() == 0,
    {
        self.probe_indexs.clear();
        self.build_indexs.clear();
    }
}

} // verus!
