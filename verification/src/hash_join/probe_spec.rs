//! What probing a hash join gives, as mathematical functions on the state
//! of the join and the block that is probed with.

use crate::datavalues::block::first_named;
use crate::datavalues::block::BlockView;
use crate::datavalues::column::ColumnView;
use crate::datavalues::column::DataFieldView;
use crate::datavalues::data_type::DataType;
use crate::datavalues::data_value::DataValueView;
use crate::error::ErrorKind;
use crate::hash_join::desc::eval_row_spec;
use crate::hash_join::desc::EvalNodeView;
use crate::hash_join::desc::MarkerKind;
use crate::hash_join::hash_method::column_types;
use crate::hash_join::hash_method::key_row;
use crate::hash_join::keys::row_has_null;
use crate::hash_join::keys::row_key;
use crate::hash_join::row::build_row;
use crate::hash_join::row::gathered;
use crate::hash_join::row::valid_ptr;
use crate::hash_join::row::ChunkView;
use crate::hash_join::state::chunk_rows_with_key;
use crate::hash_join::state::chunk_wf;
use crate::hash_join::state::eval_all;
use crate::hash_join::state::rows_with_key;
use crate::hash_join::state::JoinView;
use crate::hash_join::table::RowPtr;
use crate::planner::plans::JoinType;
use vstd::prelude::*;

verus! {

/// Whether probe keys of the types `probe_types` can be compared with build
/// keys of the types `key_types`: there are as many, and each key type is
/// the probe type or that type made nullable.
pub open spec fn types_compatible(probe_types: Seq<DataType>, key_types: Seq<DataType>) -> bool {
    &&& probe_types.len() == key_types.len()
    &&& forall|c: int|
        0 <= c < key_types.len() ==> (#[trigger] key_types[c]) == probe_types[c] || key_types[c]
            == probe_types[c].wrap_nullable()
}

/// The fields of a row of the probe side joined with a row of the build
/// side.
pub open spec fn merged_fields(v: JoinView, input: BlockView) -> Seq<DataFieldView> {
    input.fields + v.schema
}

/// Whether the other predicate of the join, if it has one, can be
/// evaluated on joined rows: a column that it names is among the fields.
pub open spec fn predicate_bound(v: JoinView, input: BlockView) -> bool {
    match v.other_predicate {
        Some(EvalNodeView::Variable { id }) => first_named(merged_fields(v, input), id) is Some,
        _ => true,
    }
}

/// Whether the row `i` of the probe side and the row `p` of the build
/// side, whose keys are equal, are a match: the other predicate of the
/// join, if it has one, is true of the joined row.
pub open spec fn pair_matches(v: JoinView, input: BlockView, i: int, p: RowPtr) -> bool {
    match v.other_predicate {
        None => true,
        Some(node) => eval_row_spec(node, merged_fields(v, input), input.row(i) + build_row(v.chunks, p)) == Some(
            DataValueView::Boolean(true),
        ),
    }
}

/// The rows of the build side that the table holds under the key of the
/// probe row `i`. A key with a `NULL` in it is equal to no key.
pub open spec fn candidates(v: JoinView, keys: Seq<ColumnView>, i: int) -> Seq<RowPtr> {
    if row_has_null(key_row(keys, i)) {
        Seq::empty()
    } else {
        (v.table)(row_key(v.method, v.key_types, key_row(keys, i)))
    }
}

/// The rows of the build side that match the probe row `i`, in the order
/// of the table.
pub open spec fn row_matches(v: JoinView, input: BlockView, keys: Seq<ColumnView>, i: int) -> Seq<RowPtr> {
    candidates(v, keys, i).filter(|p: RowPtr| pair_matches(v, input, i, p))
}

/// What a probe row with the matches `m` puts out, one entry for each row
/// of output: the build row that it is joined with, or `None` where it
/// goes out alone.
///
/// An inner join puts the row out once for each match. A left join does so
/// too, and puts a row without matches out once, alone. A semi join puts a
/// row with matches out once, an anti join a row without. A mark join puts
/// every row out once.
pub open spec fn emitted(join_type: JoinType, m: Seq<RowPtr>) -> Seq<Option<RowPtr>> {
    match join_type {
        JoinType::Inner => Seq::new(m.len(), |k: int| Some(m[k])),
        JoinType::Left => if m.len() > 0 {
            Seq::new(m.len(), |k: int| Some(m[k]))
        } else {
            seq![None]
        },
        JoinType::Semi => if m.len() > 0 {
            seq![None]
        } else {
            Seq::empty()
        },
        JoinType::Anti => if m.len() == 0 {
            seq![None]
        } else {
            Seq::empty()
        },
        _ => seq![None],
    }
}

/// The build side of the output of the first `n` probe rows.
pub open spec fn build_side(v: JoinView, input: BlockView, keys: Seq<ColumnView>, n: nat) -> Seq<Option<RowPtr>>
    decreases n,
{
    if n == 0 {
        Seq::empty()
    } else {
        build_side(v, input, keys, (n - 1) as nat) + emitted(v.join_type, row_matches(v, input, keys, n - 1))
    }
}

/// The probe side of the output of the first `n` probe rows: for each row
/// of output, the position of the probe row that it comes from.
pub open spec fn probe_side(v: JoinView, input: BlockView, keys: Seq<ColumnView>, n: nat) -> Seq<u32>
    decreases n,
{
    if n == 0 {
        Seq::empty()
    } else {
        probe_side(v, input, keys, (n - 1) as nat) + Seq::new(
            emitted(v.join_type, row_matches(v, input, keys, n - 1)).len(),
            |k: int| (n - 1) as u32,
        )
    }
}

/// The verdict of a mark join on a probe row with the matches `m`: true
/// where it has a match; else open where the build side holds a `NULL`
/// key, or the key of the probe row is `NULL` and there are rows on the
/// build side; else false.
pub open spec fn mark_of(v: JoinView, m: Seq<RowPtr>, probe_null: bool) -> MarkerKind {
    if m.len() > 0 {
        MarkerKind::True
    } else if v.marker.contains(MarkerKind::Null) || (probe_null && v.marker.len() > 0) {
        MarkerKind::Null
    } else {
        MarkerKind::False
    }
}

/// A verdict as a value of a nullable boolean column.
pub open spec fn marker_value(m: MarkerKind) -> DataValueView {
    match m {
        MarkerKind::True => DataValueView::Boolean(true),
        MarkerKind::False => DataValueView::Boolean(false),
        MarkerKind::Null => DataValueView::Null,
    }
}

/// The field of the marker column of a mark join.
pub open spec fn marker_field() -> DataFieldView {
    DataFieldView { name: "marker"@, data_type: DataType::Nullable(Box::new(DataType::Boolean)) }
}

/// The marker column of a mark join: the verdict on each probe row.
pub open spec fn marker_column(v: JoinView, input: BlockView, keys: Seq<ColumnView>) -> ColumnView {
    ColumnView {
        data_type: DataType::Nullable(Box::new(DataType::Boolean)),
        values: Seq::new(
            input.num_rows(),
            |i: int| marker_value(mark_of(v, row_matches(v, input, keys, i), row_has_null(key_row(keys, i)))),
        ),
    }
}

/// The rows of `input` at the positions `indices`, in that order.
pub open spec fn taken(input: BlockView, indices: Seq<u32>) -> BlockView {
    BlockView {
        fields: input.fields,
        columns: Seq::new(
            input.columns.len(),
            |c: int|
                ColumnView {
                    data_type: input.columns[c].data_type,
                    values: Seq::new(indices.len(), |k: int| input.columns[c].values[indices[k] as int]),
                },
        ),
    }
}

/// Two blocks side by side.
pub open spec fn side_by_side(left: BlockView, right: BlockView) -> BlockView {
    BlockView { fields: left.fields + right.fields, columns: left.columns + right.columns }
}

/// The block that probing with `input`, whose key columns are `keys`,
/// gives for a join that is no cross join.
///
/// The rows of the probe side go out as [`emitted`] says, in the order of
/// the probe rows. An inner and a left join put the build row beside each,
/// with `NULL` in every column where there is none; a mark join adds the
/// marker column.
pub open spec fn joined_block(v: JoinView, input: BlockView, keys: Seq<ColumnView>) -> BlockView {
    let probe = taken(input, probe_side(v, input, keys, input.num_rows()));
    match v.join_type {
        JoinType::Inner | JoinType::Left => side_by_side(
            probe,
            gathered(v.schema, v.chunks, build_side(v, input, keys, input.num_rows())),
        ),
        JoinType::Mark => BlockView {
            fields: probe.fields.push(marker_field()),
            columns: probe.columns.push(marker_column(v, input, keys)),
        },
        _ => probe,
    }
}

/// The values of column `c` in the first `n` chunks, one chunk after the
/// other.
pub open spec fn concat_values(chunks: Seq<ChunkView>, c: int, n: nat) -> Seq<DataValueView>
    decreases n,
{
    if n == 0 || n > chunks.len() {
        Seq::empty()
    } else {
        concat_values(chunks, c, (n - 1) as nat) + chunks[n - 1].block.columns[c].values
    }
}

/// All rows of the build side in one block.
pub open spec fn build_block(v: JoinView) -> BlockView {
    BlockView {
        fields: v.schema,
        columns: Seq::new(
            v.schema.len(),
            |c: int|
                ColumnView { data_type: v.schema[c].data_type, values: concat_values(v.chunks, c, v.chunks.len()) },
        ),
    }
}

/// The probe row `i` beside every row of `build`: the values of the probe
/// row once for each row of `build`, and the columns of `build`.
pub open spec fn with_constant_row(build: BlockView, input: BlockView, i: int) -> BlockView {
    BlockView {
        fields: input.fields + build.fields,
        columns: Seq::new(
            input.columns.len(),
            |c: int|
                ColumnView {
                    data_type: input.columns[c].data_type,
                    values: Seq::new(build.num_rows(), |k: int| input.columns[c].values[i]),
                },
        ) + build.columns,
    }
}

/// What probing the join `v` with the block `input` gives: the blocks of
/// output, or the kind of the error.
///
/// A cross join gives one block for each probe row: the row beside every
/// row of the build side. Any other join evaluates the probe keys, which
/// have to be comparable with the build keys, and gives one block, as
/// [`joined_block`] says.
pub open spec fn probe_outcome(v: JoinView, input: BlockView) -> Result<Seq<BlockView>, ErrorKind> {
    if input.num_rows() > u32::MAX {
        Err(ErrorKind::LogicalError)
    } else if v.join_type == JoinType::Cross {
        Ok(Seq::new(input.num_rows(), |i: int| with_constant_row(build_block(v), input, i)))
    } else {
        match eval_all(v.probe_keys, input) {
            None => Err(ErrorKind::EvaluationError),
            Some(keys) => {
                if !types_compatible(column_types(keys), v.key_types) {
                    Err(ErrorKind::LogicalError)
                } else if !predicate_bound(v, input) {
                    Err(ErrorKind::EvaluationError)
                } else {
                    Ok(seq![joined_block(v, input, keys)])
                }
            },
        }
    }
}

/// Every row that a chunk holds under a key is a row of the chunk.
pub proof fn lemma_chunk_rows_valid(
    v: JoinView,
    chunk: ChunkView,
    ci: int,
    rows: nat,
    key: Seq<u8>,
    k: int,
)
    requires
        0 <= ci < v.chunks.len(),
        v.chunks.len() <= u32::MAX,
        chunk == v.chunks[ci],
        rows <= chunk.block.num_rows(),
        chunk.block.num_rows() <= u32::MAX,
        0 <= k < chunk_rows_with_key(v.method, v.key_types, chunk, ci, rows, key).len(),
    ensures
        valid_ptr(v.chunks, chunk_rows_with_key(v.method, v.key_types, chunk, ci, rows, key)[k]),
    decreases rows,
{
    if rows > 0 {
        let before = chunk_rows_with_key(v.method, v.key_types, chunk, ci, (rows - 1) as nat, key);
        if k < before.len() {
            lemma_chunk_rows_valid(v, chunk, ci, (rows - 1) as nat, key, k);
        }
    }
}

/// Every row that the first `n` chunks hold under a key is a row of the
/// chunks.
pub proof fn lemma_rows_valid(v: JoinView, n: nat, key: Seq<u8>, k: int)
    requires
        v.wf(),
        n <= v.chunks.len(),
        0 <= k < rows_with_key(v.method, v.key_types, v.chunks, n, key).len(),
    ensures
        valid_ptr(v.chunks, rows_with_key(v.method, v.key_types, v.chunks, n, key)[k]),
    decreases n,
{
    if n > 0 {
        let before = rows_with_key(v.method, v.key_types, v.chunks, (n - 1) as nat, key);
        if k < before.len() {
            lemma_rows_valid(v, (n - 1) as nat, key, k);
        } else {
            let chunk = v.chunks[n - 1];
            assert(chunk_wf(chunk, v));
            lemma_chunk_rows_valid(v, chunk, n - 1, chunk.block.num_rows(), key, k - before.len());
        }
    }
}

/// Every row that the table of a well-formed join holds is a row of its
/// build side.
pub proof fn lemma_table_rows_valid(v: JoinView, key: Seq<u8>, k: int)
    requires
        v.wf(),
        0 <= k < (v.table)(key).len(),
    ensures
        valid_ptr(v.chunks, (v.table)(key)[k]),
{
    if v.finished {
        lemma_rows_valid(v, v.chunks.len(), key, k);
    }
}

/// A name is found in two lists of fields, one after the other, where it
/// is found in the first, else where it is found in the second.
pub proof fn lemma_first_named_concat(a: Seq<DataFieldView>, b: Seq<DataFieldView>, name: Seq<char>)
    ensures
        first_named(a + b, name) == match first_named(a, name) {
            Some(i) => Some(i),
            None => match first_named(b, name) {
                Some(j) => Some(a.len() + j),
                None => None,
            },
        },
    decreases b.len(),
{
    if b.len() == 0 {
        assert(a + b =~= a);
    } else {
        lemma_first_named_concat(a, b.drop_last(), name);
        assert((a + b).drop_last() =~= a + b.drop_last());
        assert((a + b).last() == b.last());
    }
}

} // verus!
