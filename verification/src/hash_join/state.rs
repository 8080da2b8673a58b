//! What a hash join stands for: its description, the rows of its build
//! side and the table that indexes them.

use crate::datavalues::block::BlockView;
use crate::datavalues::column::ColumnView;
use crate::datavalues::column::DataFieldView;
use crate::datavalues::data_type::DataType;
use crate::datavalues::data_value::DataValueView;
use crate::datavalues::column::fields_view;
use crate::hash_join::desc::eval_spec;
use crate::hash_join::desc::nodes_view;
use crate::hash_join::desc::HashJoinDesc;
use crate::hash_join::row::chunks_view;
use crate::hash_join::row::RowSpace;
use crate::hash_join::table::HashTable;
use crate::hash_join::desc::EvalNodeView;
use crate::hash_join::desc::MarkerKind;
use crate::hash_join::hash_method::column_types;
use crate::hash_join::hash_method::columns_have_rows;
use crate::hash_join::hash_method::key_row;
use crate::hash_join::keys::method_fits;
use crate::hash_join::keys::row_key;
use crate::hash_join::keys::HashMethodKind;
use crate::hash_join::row::ChunkView;
use crate::hash_join::table::RowPtr;
use crate::planner::column_set::IndexType;
use crate::planner::plans::JoinType;
use vstd::prelude::*;

verus! {

/// The state of a hash join.
pub ghost struct JoinView {
    pub join_type: JoinType,
    /// The encoding of the keys.
    pub method: HashMethodKind,
    pub key_types: Seq<DataType>,
    pub build_keys: Seq<EvalNodeView>,
    pub probe_keys: Seq<EvalNodeView>,
    pub other_predicate: Option<EvalNodeView>,
    pub marker_index: Option<IndexType>,
    /// The fields of the rows of the build side.
    pub schema: Seq<DataFieldView>,
    /// The rows of the build side, in the chunks in which they came.
    pub chunks: Seq<ChunkView>,
    /// The rows that the table holds under each key.
    pub table: spec_fn(Seq<u8>) -> Seq<RowPtr>,
    /// For a mark join, one verdict for each row of the build side.
    pub marker: Seq<MarkerKind>,
    pub finished: bool,
    /// The number of producers and consumers that hold the join.
    pub ref_count: nat,
}

/// Whether a chunk fits a join: it is a block under the join's fields, of
/// no more than `u32::MAX` rows, with the keys of its rows where the keys
/// are serialized, and the key columns where they are not or the join is a
/// mark join.
pub open spec fn chunk_wf(chunk: ChunkView, v: JoinView) -> bool {
    &&& chunk.block.wf()
    &&& chunk.block.fields == v.schema
    &&& chunk.block.num_rows() <= u32::MAX
    &&& (v.method == HashMethodKind::Serializer) == (chunk.keys is Some)
    &&& chunk.keys matches Some(keys) ==> keys.len() == chunk.block.num_rows()
    &&& (v.method != HashMethodKind::Serializer || v.join_type == JoinType::Mark) == (chunk.cols is Some)
    &&& chunk.cols matches Some(cols) ==> column_types(cols) == v.key_types && columns_have_rows(
        cols,
        chunk.block.num_rows(),
    )
}

/// The key of the row at position `r` of a chunk: the serialized key that
/// the chunk keeps, or the key made of its key columns.
pub open spec fn chunk_key(method: HashMethodKind, key_types: Seq<DataType>, chunk: ChunkView, r: int) -> Seq<
    u8,
> {
    match chunk.keys {
        Some(keys) => keys[r],
        None => row_key(method, key_types, key_row(chunk.cols.unwrap(), r)),
    }
}

/// The first `rows` rows of the chunk at position `ci` that have the key
/// `key`, in their order.
pub open spec fn chunk_rows_with_key(
    method: HashMethodKind,
    key_types: Seq<DataType>,
    chunk: ChunkView,
    ci: int,
    rows: nat,
    key: Seq<u8>,
) -> Seq<RowPtr>
    decreases rows,
{
    if rows == 0 {
        Seq::empty()
    } else {
        let before = chunk_rows_with_key(method, key_types, chunk, ci, (rows - 1) as nat, key);
        if chunk_key(method, key_types, chunk, rows - 1) == key {
            before.push(RowPtr { chunk_index: ci as u32, row_index: (rows - 1) as u32 })
        } else {
            before
        }
    }
}

/// The rows of the first `n` chunks that have the key `key`, in the order
/// of the chunks and of the rows in them.
pub open spec fn rows_with_key(
    method: HashMethodKind,
    key_types: Seq<DataType>,
    chunks: Seq<ChunkView>,
    n: nat,
    key: Seq<u8>,
) -> Seq<RowPtr>
    decreases n,
{
    if n == 0 || n > chunks.len() {
        Seq::empty()
    } else {
        rows_with_key(method, key_types, chunks, (n - 1) as nat, key) + chunk_rows_with_key(
            method,
            key_types,
            chunks[n - 1],
            n - 1,
            chunks[n - 1].block.num_rows(),
            key,
        )
    }
}

/// The verdict that a mark join starts with for a row of the build side:
/// open where the key of the row is `NULL`, else false.
pub open spec fn initial_marker(chunk: ChunkView, r: int) -> MarkerKind {
    if chunk.cols.unwrap()[0].values[r] is Null {
        MarkerKind::Null
    } else {
        MarkerKind::False
    }
}

/// The verdicts that a mark join starts with for the rows of the first `n`
/// chunks.
pub open spec fn initial_markers(chunks: Seq<ChunkView>, n: nat) -> Seq<MarkerKind>
    decreases n,
{
    if n == 0 || n > chunks.len() {
        Seq::empty()
    } else {
        initial_markers(chunks, (n - 1) as nat) + Seq::new(
            chunks[n - 1].block.num_rows(),
            |r: int| initial_marker(chunks[n - 1], r),
        )
    }
}

/// The table that holds no rows.
pub open spec fn empty_table() -> spec_fn(Seq<u8>) -> Seq<RowPtr> {
    |key: Seq<u8>| Seq::<RowPtr>::empty()
}

/// The table that holds, under each key, the rows of the chunks that have
/// the key.
pub open spec fn index_of_chunks(method: HashMethodKind, key_types: Seq<DataType>, chunks: Seq<ChunkView>) -> spec_fn(
    Seq<u8>,
) -> Seq<RowPtr> {
    |key: Seq<u8>| rows_with_key(method, key_types, chunks, chunks.len(), key)
}

impl JoinView {
    /// The invariant of a join.
    ///
    /// The encoding holds the keys, there is one key expression for each
    /// key type, a mark join has one key, and the fields of a left join
    /// take `NULL`. Every chunk fits the join. Until the join is finished
    /// the table and the verdicts are empty; from then on the table holds
    /// the rows of the chunks by key, and a mark join has its first
    /// verdicts.
    pub open spec fn wf(self) -> bool {
        &&& method_fits(self.method, self.key_types)
        &&& self.build_keys.len() == self.key_types.len()
        &&& self.join_type == JoinType::Mark ==> self.key_types.len() == 1
        &&& self.join_type == JoinType::Left ==> forall|c: int|
            0 <= c < self.schema.len() ==> DataValueView::Null.fits((#[trigger] self.schema[c]).data_type)
        &&& self.chunks.len() <= u32::MAX
        &&& forall|i: int| 0 <= i < self.chunks.len() ==> chunk_wf(#[trigger] self.chunks[i], self)
        &&& if self.finished {
            &&& forall|key: Seq<u8>|
                #[trigger] (self.table)(key) == rows_with_key(
                    self.method,
                    self.key_types,
                    self.chunks,
                    self.chunks.len(),
                    key,
                )
            &&& self.marker == if self.join_type == JoinType::Mark {
                initial_markers(self.chunks, self.chunks.len())
            } else {
                Seq::<MarkerKind>::empty()
            }
        } else {
            &&& forall|key: Seq<u8>| #[trigger] (self.table)(key) == Seq::<RowPtr>::empty()
            &&& self.marker == Seq::<MarkerKind>::empty()
        }
    }

    /// The join once it is finished: as it is where it was finished before,
    /// else with the table that indexes its chunks and, for a mark join,
    /// the first verdicts.
    pub open spec fn finish(self) -> JoinView {
        if self.finished {
            self
        } else {
            JoinView {
                finished: true,
                table: index_of_chunks(self.method, self.key_types, self.chunks),
                marker: if self.join_type == JoinType::Mark {
                    initial_markers(self.chunks, self.chunks.len())
                } else {
                    Seq::<MarkerKind>::empty()
                },
                ..self
            }
        }
    }
}

/// The state of the join that is made of the given parts.
pub open spec fn join_view(
    desc: HashJoinDesc,
    table: HashTable,
    space: RowSpace,
    finished: bool,
    ref_count: nat,
) -> JoinView {
    JoinView {
        join_type: desc.join_type,
        method: table.kind(),
        key_types: desc.key_types@,
        build_keys: nodes_view(desc.build_keys@),
        probe_keys: nodes_view(desc.probe_keys@),
        other_predicate: match desc.other_predicate {
            Some(p) => Some(p@),
            None => None,
        },
        marker_index: desc.marker_index,
        schema: fields_view(space.data_schema@),
        chunks: chunks_view(space.chunks@),
        table: |key: Seq<u8>| table.rows_for(key),
        marker: desc.marker@,
        finished,
        ref_count,
    }
}

/// The columns that evaluating each of `nodes` against `block` gives,
/// `None` where one of them cannot be evaluated.
pub open spec fn eval_all(nodes: Seq<EvalNodeView>, block: BlockView) -> Option<Seq<ColumnView>> {
    if forall|i: int| 0 <= i < nodes.len() ==> (#[trigger] eval_spec(nodes[i], block)) is Some {
        Some(Seq::new(nodes.len(), |i: int| eval_spec(nodes[i], block).unwrap()))
    } else {
        None
    }
}

/// The block `input` under the fields `schema`.
pub open spec fn retyped(input: BlockView, schema: Seq<DataFieldView>) -> BlockView {
    BlockView {
        fields: schema,
        columns: Seq::new(
            input.columns.len(),
            |c: int| ColumnView { data_type: schema[c].data_type, values: input.columns[c].values },
        ),
    }
}

/// The keys of the rows of a block whose key columns are `cols`, as a join
/// with serialized keys keeps them.
pub open spec fn serialized_keys(key_types: Seq<DataType>, cols: Seq<ColumnView>, rows: nat) -> Seq<Seq<u8>> {
    Seq::new(rows, |r: int| row_key(HashMethodKind::Serializer, key_types, key_row(cols, r)))
}

} // verus!
