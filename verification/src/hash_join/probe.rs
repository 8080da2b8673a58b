//! Probing a hash join: finding, for each row of the probe side, the rows
//! of the build side that match it, and putting the joined rows out.

use crate::datavalues::block::first_named;
use crate::datavalues::block::lemma_first_named_range;
use crate::datavalues::block::BlockView;
use crate::datavalues::block::DataBlock;
use crate::datavalues::column::columns_view;
use crate::datavalues::column::fields_view;
use crate::datavalues::column::Column;
use crate::datavalues::column::ColumnView;
use crate::datavalues::column::DataField;
use crate::datavalues::data_type::DataType;
use crate::datavalues::data_value::DataValue;
use crate::datavalues::data_value::DataValueView;
use crate::error::ErrorCode;
use crate::error::ErrorKind;
use crate::hash_join::desc::EvalNode;
use crate::hash_join::desc::EvalNodeView;
use crate::hash_join::desc::HashJoinDesc;
use crate::hash_join::desc::MarkerKind;
use crate::hash_join::desc::ProbeState;
use crate::hash_join::hash_method::build_keys;
use crate::hash_join::hash_method::column_types;
use crate::hash_join::hash_method::columns_have_rows;
use crate::hash_join::hash_method::key_row;
use crate::hash_join::hash_method::row_is_null;
use crate::hash_join::join_hash_table::eval_nodes;
use crate::hash_join::keys::row_has_null;
use crate::hash_join::keys::row_key;
use crate::hash_join::probe_spec::build_block;
use crate::hash_join::probe_spec::build_side;
use crate::hash_join::probe_spec::candidates;
use crate::hash_join::probe_spec::concat_values;
use crate::hash_join::probe_spec::emitted;
use crate::hash_join::probe_spec::lemma_first_named_concat;
use crate::hash_join::probe_spec::lemma_table_rows_valid;
use crate::hash_join::probe_spec::mark_of;
use crate::hash_join::probe_spec::marker_column;
use crate::hash_join::probe_spec::marker_value;
use crate::hash_join::probe_spec::pair_matches;
use crate::hash_join::probe_spec::predicate_bound;
use crate::hash_join::probe_spec::probe_outcome;
use crate::hash_join::probe_spec::probe_side;
use crate::hash_join::probe_spec::row_matches;
use crate::hash_join::probe_spec::side_by_side;
use crate::hash_join::probe_spec::taken;
use crate::hash_join::probe_spec::types_compatible;
use crate::hash_join::probe_spec::with_constant_row;
use crate::hash_join::row::build_row;
use crate::hash_join::row::chunks_view;
use crate::hash_join::row::valid_ptr;
use crate::hash_join::row::RowSpace;
use crate::hash_join::state::chunk_wf;
use crate::hash_join::state::join_view;
use crate::hash_join::state::JoinView;
use crate::hash_join::table::HashTable;
use crate::hash_join::table::RowPtr;
use crate::planner::plans::JoinType;
use vstd::prelude::*;

verus! {

/// The views of a vector of blocks, one by one.
pub open spec fn blocks_view(v: Seq<DataBlock>) -> Seq<BlockView> {
    Seq::new(v.len(), |i: int| v[i]@)
}

/// Whether two blocks can stand side by side: one of them has no columns,
/// or they have as many rows.
pub open spec fn same_rows(left: BlockView, right: BlockView) -> bool {
    left.columns.len() == 0 || right.columns.len() == 0 || left.num_rows() == right.num_rows()
}

/// Puts the columns of `build_block` beside those of `probe_block`, which
/// has as many rows.
///
/// Fails with a `LogicalError` where both blocks have columns and they
/// differ in the number of rows.
pub fn merge_eq_block(build_block: &DataBlock, probe_block: &DataBlock) -> (r: Result<DataBlock, ErrorCode>)
    ensures
        same_rows(probe_block@, build_block@) ==> r is Ok && r->Ok_0@ == side_by_side(probe_block@, build_block@),
        !same_rows(probe_block@, build_block@) ==> r is Err && r->Err_0.kind == ErrorKind::LogicalError,
{
    let build_columns = build_block.num_columns();
    proof {
        use_type_invariant(probe_block);
    }
    let mut out = probe_block.clone();
    let mut c: usize = 0;
    assert(build_block@.fields.take(0) =~= Seq::empty());
    assert(build_block@.columns.take(0) =~= Seq::empty());
    assert(out@.fields =~= probe_block@.fields + build_block@.fields.take(0));
    assert(out@.columns =~= probe_block@.columns + build_block@.columns.take(0));
    while c < build_columns
        invariant
            c <= build_columns,
            build_columns == build_block@.columns.len(),
            build_block@.wf(),
            probe_block@.wf(),
            c > 0 ==> same_rows(probe_block@, build_block@),
            out@ == (BlockView {
                fields: probe_block@.fields + build_block@.fields.take(c as int),
                columns: probe_block@.columns + build_block@.columns.take(c as int),
            }),
        decreases build_columns - c,
    {
        let ghost before = out@;
        proof {
            assert(build_block@.columns[c as int].wf());
            assert(build_block@.columns[0].wf());
            if probe_block@.columns.len() > 0 {
                assert(before.columns[0] == probe_block@.columns[0]);
            } else if c > 0 {
                assert(before.columns[0] == build_block@.columns[0]);
            }
        }
        out = out.add_column(build_block.column(c).clone(), build_block.field(c).clone())?;
        proof {
            assert(build_block@.fields.take(c + 1) =~= build_block@.fields.take(c as int).push(
                build_block@.fields[c as int],
            ));
            assert(build_block@.columns.take(c + 1) =~= build_block@.columns.take(c as int).push(
                build_block@.columns[c as int],
            ));
            assert(out@.fields =~= probe_block@.fields + build_block@.fields.take(c + 1));
            assert(out@.columns =~= probe_block@.columns + build_block@.columns.take(c + 1));
        }
        c += 1;
    }
    assert(build_block@.fields.take(c as int) =~= build_block@.fields);
    assert(build_block@.columns.take(c as int) =~= build_block@.columns);
    Ok(out)
}

/// Whether a block holds one row, or no columns at all.
pub open spec fn one_row(block: BlockView) -> bool {
    block.columns.len() == 0 || block.num_rows() == 1
}

/// Puts the one row of `probe_block` beside every row of `build_block`.
///
/// Fails with a `LogicalError` where `probe_block` has columns and not
/// exactly one row.
pub fn merge_with_constant_block(build_block: &DataBlock, probe_block: &DataBlock) -> (r: Result<
    DataBlock,
    ErrorCode,
>)
    ensures
        one_row(probe_block@) ==> r is Ok && r->Ok_0@ == with_constant_row(build_block@, probe_block@, 0),
        !one_row(probe_block@) ==> r is Err && r->Err_0.kind == ErrorKind::LogicalError,
{
    let build_rows = build_block.num_rows();
    let probe_columns = probe_block.num_columns();
    let probe_rows = probe_block.num_rows();
    if probe_columns != 0 && probe_rows != 1 {
        return Err(ErrorCode::create(ErrorKind::LogicalError, "The probe block must hold one row"));
    }
    let mut replicated = DataBlock::empty();
    let mut i: usize = 0;
    let ghost expected = with_constant_row(build_block@, probe_block@, 0);
    let ghost constant = Seq::new(
        probe_block@.columns.len(),
        |c: int|
            ColumnView {
                data_type: probe_block@.columns[c].data_type,
                values: Seq::new(build_block@.num_rows(), |k: int| probe_block@.columns[c].values[0]),
            },
    );
    assert(probe_block@.fields.take(0) =~= Seq::empty());
    assert(constant.take(0) =~= Seq::empty());
    while i < probe_columns
        invariant
            i <= probe_columns,
            probe_columns == probe_block@.columns.len(),
            probe_block@.wf(),
            build_block@.wf(),
            build_rows == build_block@.num_rows(),
            one_row(probe_block@),
            constant == Seq::new(
                probe_block@.columns.len(),
                |c: int|
                    ColumnView {
                        data_type: probe_block@.columns[c].data_type,
                        values: Seq::new(build_block@.num_rows(), |k: int| probe_block@.columns[c].values[0]),
                    },
            ),
            replicated@ == (BlockView { fields: probe_block@.fields.take(i as int), columns: constant.take(i as int) }),
        decreases probe_columns - i,
    {
        assert(probe_block@.columns[i as int].wf());
        let col = probe_block.column(i);
        let replicated_col = col.replicate(0, build_rows);
        let ghost before = replicated@;
        proof {
            assert(replicated_col@ == constant[i as int]);
            if i > 0 {
                assert(before.columns[0] == constant[0]);
            }
        }
        replicated = replicated.add_column(replicated_col, probe_block.field(i).clone())?;
        proof {
            assert(probe_block@.fields.take(i + 1) =~= probe_block@.fields.take(i as int).push(
                probe_block@.fields[i as int],
            ));
            assert(constant.take(i + 1) =~= constant.take(i as int).push(constant[i as int]));
        }
        i += 1;
    }
    assert(probe_block@.fields.take(i as int) =~= probe_block@.fields);
    assert(constant.take(i as int) =~= constant);
    proof {
        if replicated@.columns.len() > 0 {
            assert(replicated@.columns[0] == constant[0]);
        }
    }
    merge_eq_block(build_block, &replicated)
}

/// All rows of the row space in one block, chunk after chunk.
pub fn all_rows(space: &RowSpace) -> (r: Result<DataBlock, ErrorCode>)
    requires
        space.wf(),
    ensures
        r is Ok,
        r->Ok_0@.wf(),
        r->Ok_0@.fields == fields_view(space.data_schema@),
        r->Ok_0@.columns == Seq::new(
            space.data_schema.len() as nat,
            |c: int|
                ColumnView {
                    data_type: space.data_schema[c]@.data_type,
                    values: concat_values(chunks_view(space.chunks@), c, space.chunks.len() as nat),
                },
        ),
{
    let ghost schema = fields_view(space.data_schema@);
    let ghost chunks = chunks_view(space.chunks@);
    let mut block = DataBlock::empty_with_fields(&space.data_schema);
    let mut n: usize = 0;
    assert(block@.columns =~= Seq::new(
        schema.len(),
        |c: int| ColumnView { data_type: schema[c].data_type, values: concat_values(chunks, c, 0) },
    ));
    while n < space.chunks.len()
        invariant
            n <= space.chunks.len(),
            space.wf(),
            schema == fields_view(space.data_schema@),
            chunks == chunks_view(space.chunks@),
            block@.wf(),
            block@.fields == schema,
            block@.columns == Seq::new(
                schema.len(),
                |c: int| ColumnView { data_type: schema[c].data_type, values: concat_values(chunks, c, n as nat) },
            ),
        decreases space.chunks.len() - n,
    {
        let chunk = &space.chunks[n];
        let ghost before = block@;
        assert(chunks[n as int] == chunk@);
        assert(crate::datavalues::block::same_types(before.fields, chunk@.block.fields));
        block = block.append_block(&chunk.data_block)?;
        proof {
            assert forall|c: int| 0 <= c < schema.len() implies block@.columns[c] == (ColumnView {
                data_type: schema[c].data_type,
                values: concat_values(chunks, c, (n + 1) as nat),
            }) by {
                assert(block@.columns[c].values == before.columns[c].values + chunk@.block.columns[c].values);
                assert(block@.columns[c].data_type == block@.fields[c].data_type);
            }
            assert(block@.columns =~= Seq::new(
                schema.len(),
                |c: int| ColumnView { data_type: schema[c].data_type, values: concat_values(chunks, c, (n + 1) as nat) },
            ));
        }
        n += 1;
    }
    Ok(block)
}

/// The other predicate of a join, made ready for joined rows.
pub enum BoundPredicate {
    /// There is no predicate.
    Always,
    /// The predicate is the column at this position of the probe side.
    Probe(usize),
    /// The predicate is the column at this position of the build side.
    Build(usize),
    /// The predicate is the same for every row.
    Constant(bool),
}

/// Whether `b` is the other predicate of the join `v`, for rows of `input`
/// joined with rows of the build side.
pub open spec fn binds(b: BoundPredicate, v: JoinView, input: BlockView) -> bool {
    match v.other_predicate {
        None => b is Always,
        Some(EvalNodeView::Constant { value, .. }) => b == BoundPredicate::Constant(
            value == DataValueView::Boolean(true),
        ),
        Some(EvalNodeView::Variable { id }) => match first_named(input.fields, id) {
            Some(i) => b matches BoundPredicate::Probe(k) && k == i && 0 <= i < input.fields.len(),
            None => match first_named(v.schema, id) {
                Some(j) => b matches BoundPredicate::Build(k) && k == j && 0 <= j < v.schema.len(),
                None => false,
            },
        },
    }
}

/// Finds the column that the other predicate of a join names, among the
/// fields of the probe side first and of the build side second.
#[verifier::loop_isolation(false)]
pub fn bind_predicate(predicate: &Option<EvalNode>, input: &DataBlock, schema: &Vec<DataField>) -> (r: Result<
    BoundPredicate,
    ErrorCode,
>)
    ensures
        match r {
            Ok(b) => match predicate {
                None => b is Always,
                Some(EvalNode::Constant { value, .. }) => b == BoundPredicate::Constant(
                    value@ == DataValueView::Boolean(true),
                ),
                Some(EvalNode::Variable { id }) => match first_named(input@.fields, id@) {
                    Some(i) => b matches BoundPredicate::Probe(k) && k == i && 0 <= i < input@.fields.len(),
                    None => match first_named(fields_view(schema@), id@) {
                        Some(j) => b matches BoundPredicate::Build(k) && k == j && 0 <= j < schema.len(),
                        None => false,
                    },
                },
            },
            Err(e) => {
                &&& e.kind == ErrorKind::EvaluationError
                &&& predicate matches Some(EvalNode::Variable { id })
                &&& first_named(input@.fields + fields_view(schema@), id@) is None
            },
        },
{
    match predicate {
        None => Ok(BoundPredicate::Always),
        Some(EvalNode::Constant { value, .. }) => Ok(
            BoundPredicate::Constant(value.same(&DataValue::Boolean(true))),
        ),
        Some(EvalNode::Variable { id }) => {
            proof {
                lemma_first_named_concat(input@.fields, fields_view(schema@), id@);
            }
            match input.index_of(id.as_str()) {
                Some(i) => Ok(BoundPredicate::Probe(i)),
                None => {
                    let ghost all = fields_view(schema@);
                    let mut j: usize = 0;
                    assert(all.take(0) =~= Seq::empty());
                    while j < schema.len()
                        invariant
                            j <= schema.len(),
                            all == fields_view(schema@),
                            first_named(input@.fields, id@) is None,
                            first_named(all.take(j as int), id@) is None,
                        decreases schema.len() - j,
                    {
                        proof {
                            assert(all.take(j + 1).drop_last() =~= all.take(j as int));
                            assert(all.take(j + 1).last() == all[j as int]);
                            assert(all[j as int] == schema[j as int]@);
                        }
                        if schema[j].name.as_str().to_owned() == id.as_str().to_owned() {
                            proof {
                                crate::datavalues::block::lemma_first_named_extends(all, j + 1, id@);
                            }
                            return Ok(BoundPredicate::Build(j));
                        }
                        j += 1;
                    }
                    assert(all.take(j as int) =~= all);
                    Err(ErrorCode::create(ErrorKind::EvaluationError, "Unknown column"))
                },
            }
        },
    }
}

/// Whether the given parts make the join `v`.
pub open spec fn parts_of(v: JoinView, table: HashTable, space: RowSpace, desc: HashJoinDesc) -> bool {
    v == join_view(desc, table, space, v.finished, v.ref_count)
}

/// The key columns of the probe side as columns of the key types.
fn retype_keys(cols: &Vec<Column>, key_types: &Vec<DataType>, Ghost(rows): Ghost<nat>) -> (r: Result<
    Vec<Column>,
    ErrorCode,
>)
    requires
        columns_have_rows(columns_view(cols@), rows),
    ensures
        types_compatible(column_types(columns_view(cols@)), key_types@) ==> {
            &&& r is Ok
            &&& column_types(columns_view(r->Ok_0@)) == key_types@
            &&& columns_have_rows(columns_view(r->Ok_0@), rows)
            &&& forall|i: int| key_row(columns_view(r->Ok_0@), i) == key_row(columns_view(cols@), i)
        },
        !types_compatible(column_types(columns_view(cols@)), key_types@) ==> r is Err && r->Err_0.kind
            == ErrorKind::LogicalError,
{
    let ghost views = columns_view(cols@);
    if cols.len() != key_types.len() {
        return Err(ErrorCode::create(ErrorKind::LogicalError, "Probe keys do not fit the build keys"));
    }
    let mut out: Vec<Column> = Vec::new();
    let mut c: usize = 0;
    while c < cols.len()
        invariant
            c <= cols.len(),
            cols.len() == key_types.len(),
            views == columns_view(cols@),
            columns_have_rows(views, rows),
            out.len() == c,
            forall|j: int|
                0 <= j < c ==> (#[trigger] key_types[j]) == views[j].data_type || key_types[j]
                    == views[j].data_type.wrap_nullable(),
            forall|j: int|
                0 <= j < c ==> {
                    &&& (#[trigger] out[j])@.data_type == key_types[j]
                    &&& out[j]@.values == views[j].values
                    &&& out[j]@.wf()
                },
        decreases cols.len() - c,
    {
        assert(views[c as int] == cols[c as int]@);
        assert(column_types(views)[c as int] == views[c as int].data_type);
        let column = &cols[c];
        if key_types[c].same(column.data_type()) {
            let copy = column.clone();
            proof {
                use_type_invariant(&copy);
            }
            out.push(copy);
        } else if key_types[c].same(&column.data_type().to_nullable()) {
            let copy = column.to_nullable();
            proof {
                use_type_invariant(&copy);
            }
            out.push(copy);
        } else {
            assert(!(key_types@[c as int] == column_types(views)[c as int] || key_types@[c as int]
                == column_types(views)[c as int].wrap_nullable()));
            return Err(ErrorCode::create(ErrorKind::LogicalError, "Probe keys do not fit the build keys"));
        }
        c += 1;
    }
    proof {
        let result = columns_view(out@);
        assert(column_types(result) =~= key_types@);
        assert forall|j: int| 0 <= j < result.len() implies (#[trigger] result[j]).values.len() == rows
            && result[j].wf() by {
            assert(result[j] == out[j]@);
            assert(views[j].values.len() == rows);
        }
        assert forall|i: int| key_row(result, i) == key_row(views, i) by {
            assert forall|j: int| 0 <= j < result.len() implies key_row(result, i)[j] == key_row(views, i)[j] by {
                assert(result[j] == out[j]@);
            }
            assert(key_row(result, i) =~= key_row(views, i));
        }
        assert forall|j: int| 0 <= j < key_types.len() implies (#[trigger] key_types@[j]) == column_types(
            views,
        )[j] || key_types@[j] == column_types(views)[j].wrap_nullable() by {
            assert(key_types[j] == views[j].data_type || key_types[j] == views[j].data_type.wrap_nullable());
        }
    }
    Ok(out)
}

/// Whether the probe row `i` and the build row `p` are a match.
fn pair_test(
    b: &BoundPredicate,
    input: &DataBlock,
    space: &RowSpace,
    i: usize,
    p: RowPtr,
    Ghost(v): Ghost<JoinView>,
) -> (r: bool)
    requires
        binds(*b, v, input@),
        v.schema == fields_view(space.data_schema@),
        v.chunks == chunks_view(space.chunks@),
        v.wf(),
        input@.wf(),
        i < input@.num_rows(),
        valid_ptr(v.chunks, p),
    ensures
        r == pair_matches(v, input@, i as int, p),
{
    proof {
        match v.other_predicate {
            Some(EvalNodeView::Variable { id }) => {
                lemma_first_named_concat(input@.fields, v.schema, id);
                lemma_first_named_range(input@.fields, id);
                lemma_first_named_range(v.schema, id);
            },
            _ => {},
        }
        assert(chunk_wf(v.chunks[p.chunk_index as int], v));
    }
    match b {
        BoundPredicate::Always => true,
        BoundPredicate::Constant(c) => *c,
        BoundPredicate::Probe(c) => {
            assert(input@.columns[*c as int].values.len() == input@.num_rows());
            let value = input.column(*c).get(i);
            assert((input@.row(i as int) + build_row(v.chunks, p))[*c as int] == value@);
            value.same(&DataValue::Boolean(true))
        },
        BoundPredicate::Build(c) => {
            let chunk = &space.chunks[p.chunk_index as usize];
            assert(v.chunks[p.chunk_index as int] == chunk@);
            assert(chunk@.block.columns[*c as int].values.len() == chunk@.block.num_rows());
            let value = chunk.data_block.column(*c).get(p.row_index as usize);
            assert((input@.row(i as int) + build_row(v.chunks, p))[input@.fields.len() + *c as int] == value@);
            value.same(&DataValue::Boolean(true))
        },
    }
}

/// The rows of the build side that match the probe row `i`.
fn matches_for_row(
    table: &HashTable,
    space: &RowSpace,
    b: &BoundPredicate,
    input: &DataBlock,
    keys: &Vec<Vec<u8>>,
    null_key: bool,
    i: usize,
    Ghost(v): Ghost<JoinView>,
    Ghost(key_cols): Ghost<Seq<ColumnView>>,
) -> (m: Vec<RowPtr>)
    requires
        binds(*b, v, input@),
        v.schema == fields_view(space.data_schema@),
        v.chunks == chunks_view(space.chunks@),
        v.table == (|key: Seq<u8>| table.rows_for(key)),
        v.wf(),
        input@.wf(),
        i < input@.num_rows(),
        i < keys.len(),
        keys[i as int]@ == row_key(v.method, v.key_types, key_row(key_cols, i as int)),
        null_key == row_has_null(key_row(key_cols, i as int)),
    ensures
        m@ == row_matches(v, input@, key_cols, i as int),
        forall|k: int| 0 <= k < m.len() ==> valid_ptr(v.chunks, #[trigger] m[k]),
{
    let ghost pred = |p: RowPtr| pair_matches(v, input@, i as int, p);
    let mut m: Vec<RowPtr> = Vec::new();
    if null_key {
        proof {
            reveal(Seq::filter);
            assert(candidates(v, key_cols, i as int).filter(pred) =~= Seq::<RowPtr>::empty());
        }
        return m;
    }
    match table.find(&keys[i]) {
        None => {
            proof {
                reveal(Seq::filter);
                assert(candidates(v, key_cols, i as int).filter(pred) =~= Seq::<RowPtr>::empty());
            }
            m
        },
        Some(rows) => {
            let ghost cands = candidates(v, key_cols, i as int);
            assert(rows@ == cands);
            let mut k: usize = 0;
            proof {
                reveal(Seq::filter);
                assert(cands.take(0) =~= Seq::<RowPtr>::empty());
                assert(cands.take(0).filter(pred) =~= Seq::<RowPtr>::empty());
            }
            while k < rows.len()
                invariant
                    k <= rows.len(),
                    rows@ == cands,
                    cands == (v.table)(row_key(v.method, v.key_types, key_row(key_cols, i as int))),
                    pred == (|p: RowPtr| pair_matches(v, input@, i as int, p)),
                    binds(*b, v, input@),
                    v.schema == fields_view(space.data_schema@),
                    v.chunks == chunks_view(space.chunks@),
                    v.wf(),
                    input@.wf(),
                    i < input@.num_rows(),
                    m@ == cands.take(k as int).filter(pred),
                    forall|j: int| 0 <= j < m.len() ==> valid_ptr(v.chunks, #[trigger] m[j]),
                decreases rows.len() - k,
            {
                let p = rows[k];
                proof {
                    lemma_table_rows_valid(v, row_key(v.method, v.key_types, key_row(key_cols, i as int)), k as int);
                    assert(cands.take(k + 1) =~= cands.take(k as int).push(p));
                    cands.take(k as int).lemma_filter_push(p, pred);
                }
                if pair_test(b, input, space, i, p, Ghost(v)) {
                    m.push(p);
                }
                k += 1;
            }
            assert(cands.take(k as int) =~= cands);
            m
        },
    }
}

/// Adds to the output what the probe row `i` with the matches `m` puts
/// out.
fn emit(
    join_type: JoinType,
    i: u32,
    m: &Vec<RowPtr>,
    probe_indexs: &mut Vec<u32>,
    build_indexs: &mut Vec<Option<RowPtr>>,
)
    ensures
        final(probe_indexs)@ == old(probe_indexs)@ + Seq::new(emitted(join_type, m@).len(), |k: int| i),
        final(build_indexs)@ == old(build_indexs)@ + emitted(join_type, m@),
{
    let joined = match join_type {
        JoinType::Inner => true,
        JoinType::Left => m.len() > 0,
        _ => false,
    };
    let alone = match join_type {
        JoinType::Inner => false,
        JoinType::Left => m.len() == 0,
        JoinType::Semi => m.len() > 0,
        JoinType::Anti => m.len() == 0,
        _ => true,
    };
    let ghost out = emitted(join_type, m@);
    if joined {
        let mut k: usize = 0;
        assert(probe_indexs@ =~= old(probe_indexs)@ + Seq::new(0nat, |j: int| i));
        assert(build_indexs@ =~= old(build_indexs)@ + out.take(0));
        while k < m.len()
            invariant
                k <= m.len(),
                out == Seq::new(m.len() as nat, |j: int| Some(m[j])),
                probe_indexs@ == old(probe_indexs)@ + Seq::new(k as nat, |j: int| i),
                build_indexs@ == old(build_indexs)@ + out.take(k as int),
            decreases m.len() - k,
        {
            probe_indexs.push(i);
            build_indexs.push(Some(m[k]));
            assert(probe_indexs@ =~= old(probe_indexs)@ + Seq::new((k + 1) as nat, |j: int| i));
            assert(out.take(k + 1) =~= out.take(k as int).push(Some(m[k as int])));
            assert(build_indexs@ =~= old(build_indexs)@ + out.take(k + 1));
            k += 1;
        }
        assert(out.take(k as int) =~= out);
    } else if alone {
        probe_indexs.push(i);
        build_indexs.push(None);
        assert(out =~= seq![None]);
        assert(probe_indexs@ =~= old(probe_indexs)@ + Seq::new(1nat, |j: int| i));
        assert(build_indexs@ =~= old(build_indexs)@ + out);
    } else {
        assert(out =~= Seq::<Option<RowPtr>>::empty());
        assert(probe_indexs@ =~= old(probe_indexs)@ + Seq::new(0nat, |j: int| i));
        assert(build_indexs@ =~= old(build_indexs)@ + out);
    }
}

fn has_null_marker(marker: &Vec<MarkerKind>) -> (r: bool)
    ensures
        r == marker@.contains(MarkerKind::Null),
{
    let mut k: usize = 0;
    while k < marker.len()
        invariant
            k <= marker.len(),
            forall|j: int| 0 <= j < k ==> marker[j] != MarkerKind::Null,
        decreases marker.len() - k,
    {
        match marker[k] {
            MarkerKind::Null => {
                assert(marker@[k as int] == MarkerKind::Null);
                return true;
            },
            _ => {},
        }
        k += 1;
    }
    false
}

fn one_block(block: DataBlock) -> (r: Vec<DataBlock>)
    ensures
        blocks_view(r@) == seq![block@],
{
    let mut r: Vec<DataBlock> = Vec::new();
    r.push(block);
    assert(blocks_view(r@) =~= seq![block@]);
    r
}

/// The two sides of the output of the first `n` probe rows are as long.
proof fn lemma_sides_len(v: JoinView, input: BlockView, keys: Seq<ColumnView>, n: nat)
    ensures
        probe_side(v, input, keys, n).len() == build_side(v, input, keys, n).len(),
        v.join_type == JoinType::Mark ==> probe_side(v, input, keys, n).len() == n,
    decreases n,
{
    if n > 0 {
        lemma_sides_len(v, input, keys, (n - 1) as nat);
    }
}

/// Probes a join that is no cross join with the block `input`.
///
/// The probe keys are evaluated against the block and encoded as the build
/// keys were; each key is looked up in the table, and the rows go out as
/// the type of the join says.
#[verifier::rlimit(40)]
pub(crate) fn probe_join(
    table: &HashTable,
    space: &RowSpace,
    desc: &HashJoinDesc,
    input: &DataBlock,
    probe_state: &mut ProbeState,
    Ghost(v): Ghost<JoinView>,
) -> (r: Result<Vec<DataBlock>, ErrorCode>)
    requires
        v.wf(),
        parts_of(v, *table, *space, *desc),
        v.join_type != JoinType::Cross,
    ensures
        match probe_outcome(v, input@) {
            Ok(blocks) => r is Ok && blocks_view(r->Ok_0@) == blocks,
            Err(kind) => r is Err && r->Err_0.kind == kind,
        },
{
    let n = input.num_rows();
    if n > u32::MAX as usize {
        return Err(ErrorCode::create(ErrorKind::LogicalError, "Too many rows"));
    }
    let cols0 = eval_nodes(&desc.probe_keys, input)?;
    let ghost key_cols = columns_view(cols0@);
    let pcols = retype_keys(&cols0, &desc.key_types, Ghost(n as nat))?;
    let bound = bind_predicate(&desc.other_predicate, input, &space.data_schema)?;
    proof {
        match v.other_predicate {
            Some(EvalNodeView::Variable { id }) => {
                lemma_first_named_concat(input@.fields, v.schema, id);
            },
            _ => {},
        }
        assert(binds(bound, v, input@));
        assert(predicate_bound(v, input@));
    }
    let keys = build_keys(table.method(), &pcols, n)?;
    let null_marker = has_null_marker(&desc.marker);
    probe_state.clear();
    let mut markers: Vec<DataValue> = Vec::new();
    let is_mark = match desc.join_type {
        JoinType::Mark => true,
        _ => false,
    };
    let is_inner = match desc.join_type {
        JoinType::Inner => true,
        _ => false,
    };
    let mut i: usize = 0;
    assert(probe_state.probe_indexs@ =~= probe_side(v, input@, key_cols, 0));
    assert(probe_state.build_indexs@ =~= build_side(v, input@, key_cols, 0));
    while i < n
        invariant
            i <= n,
            n == input@.num_rows(),
            n <= u32::MAX,
            v.wf(),
            parts_of(v, *table, *space, *desc),
            input@.wf(),
            binds(bound, v, input@),
            is_mark == (v.join_type == JoinType::Mark),
            is_inner == (v.join_type == JoinType::Inner),
            null_marker == v.marker.contains(MarkerKind::Null),
            keys.len() == n,
            column_types(columns_view(pcols@)) == v.key_types,
            columns_have_rows(columns_view(pcols@), n as nat),
            forall|r: int| key_row(columns_view(pcols@), r) == key_row(key_cols, r),
            forall|r: int|
                0 <= r < n ==> (#[trigger] keys[r])@ == row_key(v.method, v.key_types, key_row(columns_view(pcols@), r)),
            probe_state.probe_indexs@ == probe_side(v, input@, key_cols, i as nat),
            probe_state.build_indexs@ == build_side(v, input@, key_cols, i as nat),
            forall|k: int| 0 <= k < probe_state.probe_indexs.len() ==> (#[trigger] probe_state.probe_indexs[k]) < n,
            forall|k: int|
                0 <= k < probe_state.build_indexs.len() ==> (#[trigger] probe_state.build_indexs[k] matches Some(p)
                    ==> valid_ptr(v.chunks, p)),
            is_inner ==> forall|k: int|
                0 <= k < probe_state.build_indexs.len() ==> #[trigger] probe_state.build_indexs[k] is Some,
            v.join_type != JoinType::Inner && v.join_type != JoinType::Left ==> forall|k: int|
                0 <= k < probe_state.build_indexs.len() ==> #[trigger] probe_state.build_indexs[k] is None,
            is_mark ==> markers.len() == i && forall|r: int|
                0 <= r < i ==> (#[trigger] markers[r])@ == marker_value(
                    mark_of(v, row_matches(v, input@, key_cols, r), row_has_null(key_row(key_cols, r))),
                ),
        decreases n - i,
    {
        proof {
            assert forall|c: int| 0 <= c < pcols.len() implies i < (#[trigger] pcols[c])@.values.len() by {
                assert(columns_view(pcols@)[c] == pcols[c]@);
            }
            assert(key_row(columns_view(pcols@), i as int) == key_row(key_cols, i as int));
        }
        let null_key = row_is_null(&pcols, i);
        let m = matches_for_row(table, space, &bound, input, &keys, null_key, i, Ghost(v), Ghost(key_cols));
        let ghost old_probe = probe_state.probe_indexs@;
        let ghost old_build = probe_state.build_indexs@;
        emit(desc.join_type, i as u32, &m, &mut probe_state.probe_indexs, &mut probe_state.build_indexs);
        proof {
            let out = emitted(v.join_type, m@);
            assert forall|k: int| 0 <= k < probe_state.build_indexs.len() implies (#[trigger] probe_state.build_indexs[k] matches Some(
                p,
            ) ==> valid_ptr(v.chunks, p)) by {
                if k >= old_build.len() {
                    let j = k - old_build.len();
                    assert(probe_state.build_indexs[k] == out[j]);
                    if out[j] is Some {
                        assert(out[j] == Some(m[j]));
                    }
                } else {
                    assert(probe_state.build_indexs[k] == old_build[k]);
                }
            }
            assert forall|k: int| 0 <= k < probe_state.probe_indexs.len() implies (#[trigger] probe_state.probe_indexs[k])
                < n by {
                if k < old_probe.len() {
                    assert(probe_state.probe_indexs[k] == old_probe[k]);
                }
            }
            if is_inner {
                assert forall|k: int| 0 <= k < probe_state.build_indexs.len() implies #[trigger] probe_state.build_indexs[k] is Some by {
                    if k >= old_build.len() {
                        assert(probe_state.build_indexs[k] == out[k - old_build.len()]);
                    } else {
                        assert(probe_state.build_indexs[k] == old_build[k]);
                    }
                }
            }
            if v.join_type != JoinType::Inner && v.join_type != JoinType::Left {
                assert forall|k: int| 0 <= k < probe_state.build_indexs.len() implies #[trigger] probe_state.build_indexs[k] is None by {
                    if k >= old_build.len() {
                        assert(probe_state.build_indexs[k] == out[k - old_build.len()]);
                    } else {
                        assert(probe_state.build_indexs[k] == old_build[k]);
                    }
                }
            }
        }
        if is_mark {
            let value = if m.len() > 0 {
                DataValue::Boolean(true)
            } else if null_marker || (null_key && desc.marker.len() > 0) {
                DataValue::Null
            } else {
                DataValue::Boolean(false)
            };
            markers.push(value);
        }
        i += 1;
    }
    proof {
        lemma_sides_len(v, input@, key_cols, n as nat);
    }
    let probe_block = DataBlock::block_take_by_indices(input, &probe_state.probe_indexs)?;
    proof {
        let expected = taken(input@, probe_state.probe_indexs@);
        assert forall|c: int| 0 <= c < expected.columns.len() implies probe_block@.columns[c]
            == expected.columns[c] by {
            assert(probe_block@.columns[c].data_type == probe_block@.fields[c].data_type);
            assert(input@.columns[c].data_type == input@.fields[c].data_type);
            assert(probe_block@.columns[c].values =~= expected.columns[c].values);
        }
        assert(probe_block@.columns =~= expected.columns);
        assert(probe_block@ == expected);
    }
    let result = match desc.join_type {
        JoinType::Inner | JoinType::Left => {
            proof {
                assert(space.wf()) by {
                    assert forall|k: int| 0 <= k < space.chunks.len() implies (#[trigger] space.chunks[k])@.block.wf()
                        && space.chunks[k]@.block.fields == fields_view(space.data_schema@) by {
                        assert(chunk_wf(v.chunks[k], v));
                    }
                }
                if exists|k: int| 0 <= k < probe_state.build_indexs.len() && #[trigger] probe_state.build_indexs[k] is None {
                    assert(v.join_type == JoinType::Left);
                    assert forall|c: int| 0 <= c < space.data_schema.len() implies DataValueView::Null.fits(
                        (#[trigger] space.data_schema[c]).data_type,
                    ) by {
                        assert(v.schema[c] == space.data_schema[c]@);
                    }
                }
            }
            let build_block = space.gather(&probe_state.build_indexs);
            proof {
                let g = build_block@;
                if g.columns.len() > 0 && probe_block@.columns.len() > 0 {
                    assert(g.columns[0].values.len() == probe_state.build_indexs.len());
                    assert(probe_block@.columns[0].values.len() == probe_state.probe_indexs.len());
                }
            }
            merge_eq_block(&build_block, &probe_block)?
        },
        JoinType::Mark => {
            let marker_type = DataType::Nullable(Box::new(DataType::Boolean));
            proof {
                reveal_with_fuel(DataValueView::fits, 2);
                let view = ColumnView {
                    data_type: marker_type,
                    values: crate::datavalues::column::values_view(markers@),
                };
                assert(view.values =~= marker_column(v, input@, key_cols).values);
                assert forall|r: int| 0 <= r < view.values.len() implies (#[trigger] view.values[r]).fits(
                    marker_type,
                ) by {
                    assert(view.values[r] == markers[r]@);
                }
                if probe_block@.columns.len() > 0 {
                    assert(probe_block@.columns[0].values.len() == probe_state.probe_indexs.len());
                }
            }
            let column = Column::try_create(marker_type, markers)?;
            let field = DataField::new("marker", DataType::Nullable(Box::new(DataType::Boolean)));
            probe_block.add_column(column, field)?
        },
        _ => probe_block,
    };
    Ok(one_block(result))
}

/// Probes a cross join with the block `input`: each row of the block goes
/// out beside every row of the build side, one block for each row.
pub(crate) fn probe_cross_join(space: &RowSpace, input: &DataBlock, Ghost(v): Ghost<JoinView>) -> (r: Result<
    Vec<DataBlock>,
    ErrorCode,
>)
    requires
        v.wf(),
        v.schema == fields_view(space.data_schema@),
        v.chunks == chunks_view(space.chunks@),
        v.join_type == JoinType::Cross,
    ensures
        match probe_outcome(v, input@) {
            Ok(blocks) => r is Ok && blocks_view(r->Ok_0@) == blocks,
            Err(kind) => r is Err && r->Err_0.kind == kind,
        },
{
    let n = input.num_rows();
    if n > u32::MAX as usize {
        return Err(ErrorCode::create(ErrorKind::LogicalError, "Too many rows"));
    }
    proof {
        assert(space.wf()) by {
            assert forall|k: int| 0 <= k < space.chunks.len() implies (#[trigger] space.chunks[k])@.block.wf()
                && space.chunks[k]@.block.fields == fields_view(space.data_schema@) by {
                assert(chunk_wf(v.chunks[k], v));
            }
        }
    }
    let build = all_rows(space)?;
    proof {
        assert(build@.columns =~= build_block(v).columns);
        assert(build@ == build_block(v));
    }
    let mut results: Vec<DataBlock> = Vec::new();
    let mut i: usize = 0;
    while i < n
        invariant
            i <= n,
            n == input@.num_rows(),
            n <= u32::MAX,
            input@.wf(),
            build@ == build_block(v),
            results.len() == i,
            forall|k: int| 0 <= k < i ==> (#[trigger] results[k])@ == with_constant_row(build_block(v), input@, k),
        decreases n - i,
    {
        let mut index: Vec<u32> = Vec::new();
        index.push(i as u32);
        let probe_row = DataBlock::block_take_by_indices(input, &index)?;
        proof {
            if probe_row@.columns.len() > 0 {
                assert(probe_row@.columns[0].values.len() == 1);
            }
        }
        let merged = merge_with_constant_block(&build, &probe_row)?;
        proof {
            let expected = with_constant_row(build_block(v), input@, i as int);
            let got = with_constant_row(build@, probe_row@, 0);
            assert forall|c: int| 0 <= c < got.columns.len() implies got.columns[c] == expected.columns[c] by {
                if c < input@.columns.len() {
                    assert(probe_row@.columns[c].data_type == probe_row@.fields[c].data_type);
                    assert(input@.columns[c].data_type == input@.fields[c].data_type);
                    assert(probe_row@.columns[c].values[0] == input@.columns[c].values[index[0] as int]);
                    assert(got.columns[c].values =~= expected.columns[c].values);
                }
            }
            assert(got.columns =~= expected.columns);
        }
        results.push(merged);
        i += 1;
    }
    assert(blocks_view(results@) =~= Seq::new(n as nat, |k: int| with_constant_row(build_block(v), input@, k)));
    Ok(results)
}

} // verus!
