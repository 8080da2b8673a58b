//! The hash join as the pipeline sees it: rows are added to the build side,
//! the last producer to leave finishes the table, and the probe side is
//! matched against it.

use crate::datavalues::block::fields_accept;
use crate::datavalues::block::BlockView;
use crate::datavalues::block::DataBlock;
use crate::datavalues::column::columns_view;
use crate::datavalues::column::fields_view;
use crate::datavalues::column::lemma_null_fits_nullable;
use crate::datavalues::column::Column;
use crate::datavalues::column::DataField;
use crate::datavalues::column::DataFieldView;
use crate::datavalues::data_type::DataType;
use crate::error::ErrorCode;
use crate::error::ErrorKind;
use crate::hash_join::desc::eval_spec;
use crate::hash_join::desc::nodes_view;
use crate::hash_join::desc::EvalNode;
use crate::hash_join::desc::EvalNodeView;
use crate::hash_join::desc::Evaluator;
use crate::hash_join::desc::HashJoinDesc;
use crate::hash_join::desc::MarkerKind;
use crate::hash_join::desc::PhysicalScalar;
use crate::hash_join::desc::ProbeState;
use crate::hash_join::hash_method::build_keys;
use crate::hash_join::hash_method::choose_hash_method_with_types;
use crate::hash_join::hash_method::column_types;
use crate::hash_join::hash_method::columns_have_rows;
use crate::hash_join::hash_method::fixed_total;
use crate::hash_join::hash_method::key_row;
use crate::hash_join::keys::choose_method;
use crate::hash_join::keys::method_fits;
use crate::hash_join::keys::HashMethodKind;
use crate::hash_join::probe::blocks_view;
use crate::hash_join::probe::one_row;
use crate::hash_join::probe::same_rows;
use crate::hash_join::probe_spec::probe_outcome;
use crate::hash_join::probe_spec::side_by_side;
use crate::hash_join::probe_spec::with_constant_row;
use crate::hash_join::row::chunks_view;
use crate::hash_join::row::keys_view;
use crate::hash_join::row::Chunk;
use crate::hash_join::row::ChunkView;
use crate::hash_join::row::RowSpace;
use crate::hash_join::state::chunk_key;
use crate::hash_join::state::chunk_rows_with_key;
use crate::hash_join::state::chunk_wf;
use crate::hash_join::state::empty_table;
use crate::hash_join::state::eval_all;
use crate::hash_join::state::initial_marker;
use crate::hash_join::state::initial_markers;
use crate::hash_join::state::join_view;
use crate::hash_join::state::retyped;
use crate::hash_join::state::rows_with_key;
use crate::hash_join::state::serialized_keys;
use crate::hash_join::state::JoinView;
use crate::hash_join::table::HashTable;
use crate::hash_join::table::RowPtr;
use crate::planner::column_set::IndexType;
use crate::planner::plans::JoinType;
use vstd::prelude::*;

verus! {

/// A hash join: the table over the rows of the build side, and the count
/// of those who still hold it.
pub struct JoinHashTable {
    ref_count: usize,
    is_finished: bool,
    hash_table: HashTable,
    row_space: RowSpace,
    hash_join_desc: HashJoinDesc,
}

impl View for JoinHashTable {
    type V = JoinView;

    closed spec fn view(&self) -> JoinView {
        join_view(self.hash_join_desc, self.hash_table, self.row_space, self.is_finished, self.ref_count as nat)
    }
}

/// The types of the expressions `keys`, one by one.
pub open spec fn scalar_types(keys: Seq<PhysicalScalar>) -> Seq<DataType> {
    Seq::new(keys.len(), |i: int| keys[i].type_of())
}

/// The expressions `keys` as they are evaluated, one by one.
pub open spec fn scalar_nodes(keys: Seq<PhysicalScalar>) -> Seq<EvalNodeView> {
    Seq::new(keys.len(), |i: int| keys[i].node())
}

/// The fields `schema`, each with its type made nullable.
pub open spec fn nullable_fields(schema: Seq<DataFieldView>) -> Seq<DataFieldView> {
    Seq::new(
        schema.len(),
        |c: int| DataFieldView { name: schema[c].name, data_type: schema[c].data_type.wrap_nullable() },
    )
}

/// The fields that a join of type `join_type` keeps its build side under:
/// every type is made nullable for a left join, whose unmatched rows have
/// `NULL` in every column of the build side.
pub open spec fn build_fields(join_type: JoinType, schema: Seq<DataFieldView>) -> Seq<DataFieldView> {
    if join_type == JoinType::Left {
        nullable_fields(schema)
    } else {
        schema
    }
}

/// The state of a join that was just made.
pub open spec fn initial_join(
    join_type: JoinType,
    build_keys: Seq<PhysicalScalar>,
    probe_keys: Seq<PhysicalScalar>,
    other_predicate: Option<PhysicalScalar>,
    build_schema: Seq<DataFieldView>,
    marker_index: Option<IndexType>,
) -> JoinView {
    JoinView {
        join_type,
        method: choose_method(scalar_types(build_keys)),
        key_types: scalar_types(build_keys),
        build_keys: scalar_nodes(build_keys),
        probe_keys: scalar_nodes(probe_keys),
        other_predicate: match other_predicate {
            Some(p) => Some(p.node()),
            None => None,
        },
        marker_index,
        schema: build_fields(join_type, build_schema),
        chunks: Seq::empty(),
        table: empty_table(),
        marker: Seq::empty(),
        finished: false,
        ref_count: 0,
    }
}

/// The state of a join that was just made from a description, for keys of
/// the encoding `method` and a build side of the fields `build_schema`.
pub open spec fn created_join(desc: HashJoinDesc, method: HashMethodKind, build_schema: Seq<DataFieldView>) -> JoinView {
    JoinView {
        join_type: desc.join_type,
        method,
        key_types: desc.key_types@,
        build_keys: nodes_view(desc.build_keys@),
        probe_keys: nodes_view(desc.probe_keys@),
        other_predicate: match desc.other_predicate {
            Some(p) => Some(p@),
            None => None,
        },
        marker_index: desc.marker_index,
        schema: build_fields(desc.join_type, build_schema),
        chunks: Seq::empty(),
        table: empty_table(),
        marker: Seq::empty(),
        finished: false,
        ref_count: 0,
    }
}

/// What adding the block `input` to the build side of the join `v` gives:
/// the chunk that is added, or the kind of the error.
///
/// A finished join takes no rows. The build keys are evaluated against the
/// block; their columns have to be of the key types, the block has to fit
/// the fields of the join, and there has to be room for one more chunk of
/// so many rows.
pub open spec fn build_outcome(v: JoinView, input: BlockView) -> Result<ChunkView, ErrorKind> {
    if v.finished {
        Err(ErrorKind::LogicalError)
    } else {
        match eval_all(v.build_keys, input) {
            None => Err(ErrorKind::EvaluationError),
            Some(cols) => {
                if column_types(cols) != v.key_types || !fields_accept(v.schema, input.fields) || v.chunks.len()
                    >= u32::MAX || input.num_rows() > u32::MAX {
                    Err(ErrorKind::LogicalError)
                } else {
                    Ok(
                        ChunkView {
                            block: retyped(input, v.schema),
                            cols: if v.method != HashMethodKind::Serializer || v.join_type == JoinType::Mark {
                                Some(cols)
                            } else {
                                None
                            },
                            keys: if v.method == HashMethodKind::Serializer {
                                Some(serialized_keys(v.key_types, cols, input.num_rows()))
                            } else {
                                None
                            },
                        },
                    )
                }
            },
        }
    }
}

fn eval_scalars(keys: &Vec<PhysicalScalar>) -> (r: Result<(Vec<EvalNode>, Vec<DataType>), ErrorCode>)
    ensures
        r is Ok,
        r->Ok_0.0.len() == keys.len(),
        r->Ok_0.1.len() == keys.len(),
        nodes_view(r->Ok_0.0@) == scalar_nodes(keys@),
        r->Ok_0.1@ == scalar_types(keys@),
{
    let mut nodes: Vec<EvalNode> = Vec::new();
    let mut types: Vec<DataType> = Vec::new();
    let mut i: usize = 0;
    while i < keys.len()
        invariant
            i <= keys.len(),
            nodes.len() == i,
            types.len() == i,
            forall|j: int| 0 <= j < i ==> (#[trigger] nodes[j])@ == keys[j].node(),
            forall|j: int| 0 <= j < i ==> (#[trigger] types[j]) == keys[j].type_of(),
        decreases keys.len() - i,
    {
        nodes.push(Evaluator::eval_physical_scalar(&keys[i])?);
        types.push(keys[i].data_type());
        i += 1;
    }
    assert(nodes_view(nodes@) =~= scalar_nodes(keys@));
    assert(types@ =~= scalar_types(keys@));
    Ok((nodes, types))
}

fn make_nullable(schema: &Vec<DataField>) -> (r: Vec<DataField>)
    ensures
        fields_view(r@) == nullable_fields(fields_view(schema@)),
{
    let mut out: Vec<DataField> = Vec::with_capacity(schema.len());
    let mut c: usize = 0;
    while c < schema.len()
        invariant
            c <= schema.len(),
            out.len() == c,
            forall|j: int|
                0 <= j < c ==> (#[trigger] out[j])@ == (DataFieldView {
                    name: schema[j]@.name,
                    data_type: schema[j]@.data_type.wrap_nullable(),
                }),
        decreases schema.len() - c,
    {
        out.push(DataField::new_nullable(schema[c].name(), schema[c].data_type().clone()));
        c += 1;
    }
    assert(fields_view(out@) =~= nullable_fields(fields_view(schema@)));
    out
}

/// Evaluates the expressions `nodes` against `block`.
pub fn eval_nodes(nodes: &Vec<EvalNode>, block: &DataBlock) -> (r: Result<Vec<Column>, ErrorCode>)
    ensures
        block@.wf(),
        match eval_all(nodes_view(nodes@), block@) {
            Some(cols) => r is Ok && columns_view(r->Ok_0@) == cols && columns_have_rows(cols, block@.num_rows()),
            None => r is Err && r->Err_0.kind == ErrorKind::EvaluationError,
        },
{
    proof {
        use_type_invariant(block);
    }
    let ghost views = nodes_view(nodes@);
    let mut out: Vec<Column> = Vec::new();
    let mut i: usize = 0;
    while i < nodes.len()
        invariant
            i <= nodes.len(),
            block@.wf(),
            views == nodes_view(nodes@),
            out.len() == i,
            forall|j: int| 0 <= j < i ==> (#[trigger] eval_spec(views[j], block@)) == Some(out[j]@),
            forall|j: int| 0 <= j < i ==> (#[trigger] out[j])@.values.len() == block@.num_rows() && out[j]@.wf(),
        decreases nodes.len() - i,
    {
        assert(views[i as int] == nodes[i as int]@);
        match nodes[i].eval(block) {
            Ok(column) => {
                proof {
                    use_type_invariant(&column);
                    match views[i as int] {
                        EvalNodeView::Variable { id } => {
                            let k = block@.index_of(id).unwrap();
                            crate::datavalues::block::lemma_first_named_range(block@.fields, id);
                            assert(block@.columns[k].values.len() == block@.num_rows());
                        },
                        EvalNodeView::Constant { .. } => {},
                    }
                }
                out.push(column);
            },
            Err(e) => {
                assert(eval_spec(views[i as int], block@) is None);
                return Err(e);
            },
        }
        i += 1;
    }
    proof {
        let cols = eval_all(views, block@).unwrap();
        assert(columns_view(out@) =~= cols);
        assert forall|c: int| 0 <= c < cols.len() implies (#[trigger] cols[c]).values.len() == block@.num_rows()
            && cols[c].wf() by {
            assert(cols[c] == out[c]@);
        }
    }
    Ok(out)
}

fn same_types(columns: &Vec<Column>, types: &Vec<DataType>) -> (r: bool)
    ensures
        r == (column_types(columns_view(columns@)) == types@),
{
    if columns.len() != types.len() {
        return false;
    }
    let mut c: usize = 0;
    while c < columns.len()
        invariant
            c <= columns.len(),
            columns.len() == types.len(),
            forall|j: int| 0 <= j < c ==> (#[trigger] columns[j])@.data_type == types[j],
        decreases columns.len() - c,
    {
        if !columns[c].data_type().same(&types[c]) {
            assert(column_types(columns_view(columns@))[c as int] != types@[c as int]);
            return false;
        }
        c += 1;
    }
    assert(column_types(columns_view(columns@)) =~= types@);
    true
}

/// Adds to `marker` the verdict that a mark join starts with for each
/// value of the key column `col`: open for a `NULL`, else false.
fn push_markers(marker: &mut Vec<MarkerKind>, col: &Column)
    ensures
        final(marker)@ == old(marker)@ + Seq::new(
            col@.values.len(),
            |r: int| if col@.values[r] is Null { MarkerKind::Null } else { MarkerKind::False },
        ),
{
    let rows = col.len();
    let mut row_idx: usize = 0;
    assert(marker@ =~= old(marker)@ + Seq::new(
        0nat,
        |r: int| if col@.values[r] is Null { MarkerKind::Null } else { MarkerKind::False },
    ));
    while row_idx < rows
        invariant
            row_idx <= rows,
            rows == col@.values.len(),
            marker@ == old(marker)@ + Seq::new(
                row_idx as nat,
                |r: int| if col@.values[r] is Null { MarkerKind::Null } else { MarkerKind::False },
            ),
        decreases rows - row_idx,
    {
        if col.get(row_idx).is_null() {
            marker.push(MarkerKind::Null);
        } else {
            marker.push(MarkerKind::False);
        }
        assert(marker@ =~= old(marker)@ + Seq::new(
            (row_idx + 1) as nat,
            |r: int| if col@.values[r] is Null { MarkerKind::Null } else { MarkerKind::False },
        ));
        row_idx += 1;
    }
}

/// Puts the rows of the chunk at position `chunk_index` into the table,
/// each under its key and after the rows that the key has: the key that
/// the chunk keeps for the row, or the key that is made of its key
/// columns.
fn insert_key(table: &mut HashTable, chunk: &Chunk, chunk_index: usize, Ghost(v): Ghost<JoinView>) -> (r: Result<
    (),
    ErrorCode,
>)
    requires
        old(table).kind() == v.method,
        method_fits(v.method, v.key_types),
        chunk_wf(chunk@, v),
        chunk_index < u32::MAX,
    ensures
        r is Ok,
        final(table).kind() == old(table).kind(),
        forall|key: Seq<u8>|
            #[trigger] final(table).rows_for(key) == old(table).rows_for(key) + chunk_rows_with_key(
                v.method,
                v.key_types,
                chunk@,
                chunk_index as int,
                chunk@.block.num_rows(),
                key,
            ),
{
    let ghost cv = chunk@;
    let kind = table.method();
    let rows = chunk.data_block.num_rows();
    let built: Option<Vec<Vec<u8>>> = match &chunk.keys {
        Some(_) => None,
        None => match &chunk.cols {
            Some(cols) => Some(build_keys(kind, cols, rows)?),
            None => None,
        },
    };
    let keys: &Vec<Vec<u8>> = match &chunk.keys {
        Some(keys) => keys,
        None => match &built {
            Some(keys) => keys,
            None => {
                return Err(ErrorCode::create(ErrorKind::LogicalError, "Chunk without keys"));
            },
        },
    };
    assert(keys.len() == rows);
    assert forall|r: int| 0 <= r < rows implies (#[trigger] keys[r])@ == chunk_key(v.method, v.key_types, cv, r)
        && table.takes(keys[r]@) by {
        if cv.keys is Some {
            assert(cv.keys.unwrap()[r] == keys[r]@);
        } else {
            crate::hash_join::keys::lemma_row_key_len(v.method, v.key_types, key_row(cv.cols.unwrap(), r));
        }
    }
    let mut row_index: usize = 0;
    assert forall|key: Seq<u8>|
        #[trigger] table.rows_for(key) == old(table).rows_for(key) + chunk_rows_with_key(
            v.method,
            v.key_types,
            cv,
            chunk_index as int,
            0,
            key,
        ) by {
        assert(old(table).rows_for(key) + Seq::<RowPtr>::empty() =~= old(table).rows_for(key));
    }
    while row_index < rows
        invariant
            row_index <= rows,
            rows == cv.block.num_rows(),
            rows <= u32::MAX,
            chunk_index < u32::MAX,
            keys.len() == rows,
            table.kind() == old(table).kind(),
            forall|r: int|
                0 <= r < rows ==> (#[trigger] keys[r])@ == chunk_key(v.method, v.key_types, cv, r) && table.takes(
                    keys[r]@,
                ),
            forall|key: Seq<u8>|
                #[trigger] table.rows_for(key) == old(table).rows_for(key) + chunk_rows_with_key(
                    v.method,
                    v.key_types,
                    cv,
                    chunk_index as int,
                    row_index as nat,
                    key,
                ),
        decreases rows - row_index,
    {
        let ptr = RowPtr { chunk_index: chunk_index as u32, row_index: row_index as u32 };
        let ghost before = *table;
        let key = keys[row_index].clone();
        assert(key@ == keys[row_index as int]@);
        table.insert(key, ptr);
        proof {
            assert forall|k: Seq<u8>|
                #[trigger] table.rows_for(k) == old(table).rows_for(k) + chunk_rows_with_key(
                    v.method,
                    v.key_types,
                    cv,
                    chunk_index as int,
                    (row_index + 1) as nat,
                    k,
                ) by {
                let a = old(table).rows_for(k);
                let b = chunk_rows_with_key(v.method, v.key_types, cv, chunk_index as int, row_index as nat, k);
                assert(before.rows_for(k) == a + b);
                if k == key@ {
                    assert((a + b).push(ptr) =~= a + b.push(ptr));
                }
            }
        }
        row_index += 1;
    }
    Ok(())
}

impl JoinHashTable {
    /// Makes the join of type `join_type` whose build side has the fields
    /// `build_schema`. The encoding of the keys is chosen from the types of
    /// the build keys.
    ///
    /// A mark join takes exactly one build key; with any other number the
    /// result is a `LogicalError`.
    pub fn create_join_state(
        join_type: JoinType,
        build_keys: &Vec<PhysicalScalar>,
        probe_keys: &Vec<PhysicalScalar>,
        other_predicate: Option<&PhysicalScalar>,
        build_schema: Vec<DataField>,
        marker_index: Option<IndexType>,
    ) -> (r: Result<JoinHashTable, ErrorCode>)
        ensures
            (join_type == JoinType::Mark && build_keys.len() != 1) ==> r is Err && r->Err_0.kind
                == ErrorKind::LogicalError,
            !(join_type == JoinType::Mark && build_keys.len() != 1) ==> r is Ok && r->Ok_0@.wf() && r->Ok_0@
                == initial_join(
                join_type,
                build_keys@,
                probe_keys@,
                match other_predicate {
                    Some(p) => Some(*p),
                    None => None,
                },
                fields_view(build_schema@),
                marker_index,
            ),
    {
        let (build_nodes, key_types) = eval_scalars(build_keys)?;
        let (probe_nodes, _) = eval_scalars(probe_keys)?;
        let method = choose_hash_method_with_types(&key_types);
        let predicate = match other_predicate {
            Some(p) => Some(Evaluator::eval_physical_scalar(p)?),
            None => None,
        };
        let hash_join_desc = HashJoinDesc {
            key_types,
            build_keys: build_nodes,
            probe_keys: probe_nodes,
            join_type,
            other_predicate: predicate,
            marker: Vec::new(),
            marker_index,
        };
        let ghost expected = initial_join(
            join_type,
            build_keys@,
            probe_keys@,
            match other_predicate {
                Some(p) => Some(*p),
                None => None,
            },
            fields_view(build_schema@),
            marker_index,
        );
        assert(created_join(hash_join_desc, method, fields_view(build_schema@)) == expected);
        JoinHashTable::try_create(HashTable::create(method), build_schema, hash_join_desc)
    }

    /// Makes a join from a table, the fields of its build side and its
    /// description. The table gives the encoding of the keys; the join
    /// starts with an empty table of that encoding. For a left join the
    /// types of the fields are made nullable.
    ///
    /// Fails with a `LogicalError` where the table's encoding cannot hold
    /// keys of the key types, the build keys are not as many as the key
    /// types, or a mark join has not exactly one key.
    pub fn try_create(hash_table: HashTable, build_data_schema: Vec<DataField>, hash_join_desc: HashJoinDesc) -> (r:
        Result<JoinHashTable, ErrorCode>)
        ensures
            (method_fits(hash_table.kind(), hash_join_desc.key_types@) && hash_join_desc.build_keys.len()
                == hash_join_desc.key_types.len() && (hash_join_desc.join_type == JoinType::Mark
                ==> hash_join_desc.key_types.len() == 1)) ==> r is Ok && r->Ok_0@.wf() && r->Ok_0@ == created_join(
                hash_join_desc,
                hash_table.kind(),
                fields_view(build_data_schema@),
            ),
            !(method_fits(hash_table.kind(), hash_join_desc.key_types@) && hash_join_desc.build_keys.len()
                == hash_join_desc.key_types.len() && (hash_join_desc.join_type == JoinType::Mark
                ==> hash_join_desc.key_types.len() == 1)) ==> r is Err && r->Err_0.kind == ErrorKind::LogicalError,
    {
        let mut hash_join_desc = hash_join_desc;
        let kind = hash_table.method();
        let fits = match kind {
            HashMethodKind::Serializer => true,
            _ => match fixed_total(&hash_join_desc.key_types) {
                Some(n) => n <= kind.key_width() as u128,
                None => false,
            },
        };
        if !fits || hash_join_desc.build_keys.len() != hash_join_desc.key_types.len() {
            return Err(ErrorCode::create(ErrorKind::LogicalError, "Keys do not fit the hash method"));
        }
        match hash_join_desc.join_type {
            JoinType::Mark => {
                if hash_join_desc.key_types.len() != 1 {
                    return Err(ErrorCode::create(ErrorKind::LogicalError, "Mark join takes one key"));
                }
            },
            _ => {},
        }
        let schema = match hash_join_desc.join_type {
            JoinType::Left => make_nullable(&build_data_schema),
            _ => build_data_schema,
        };
        hash_join_desc.marker.clear();
        let t = JoinHashTable {
            row_space: RowSpace::new(schema),
            ref_count: 0,
            is_finished: false,
            hash_join_desc,
            hash_table: HashTable::create(kind),
        };
        proof {
            assert(t@.chunks =~= Seq::<ChunkView>::empty());
            assert(t@.marker =~= Seq::<MarkerKind>::empty());
            assert(t@.table =~= empty_table());
            if t@.join_type == JoinType::Left {
                assert forall|c: int| 0 <= c < t@.schema.len() implies crate::datavalues::data_value::DataValueView::Null.fits(
                    (#[trigger] t@.schema[c]).data_type,
                ) by {
                    lemma_null_fits_nullable(fields_view(build_data_schema@)[c].data_type);
                }
            }
        }
        Ok(t)
    }

    /// Counts one more holder of the join, or fails with a `LogicalError`
    /// where the count is at its limit.
    pub fn attach(&mut self) -> (r: Result<(), ErrorCode>)
        ensures
            old(self)@.ref_count < usize::MAX ==> r is Ok && final(self)@ == (JoinView {
                ref_count: old(self)@.ref_count + 1,
                ..old(self)@
            }),
            old(self)@.ref_count >= usize::MAX ==> r is Err && r->Err_0.kind == ErrorKind::LogicalError
                && final(self)@ == old(self)@,
    {
        if self.ref_count == usize::MAX {
            return Err(ErrorCode::create(ErrorKind::LogicalError, "Too many references"));
        }
        self.ref_count = self.ref_count + 1;
        Ok(())
    }

    /// Counts one holder of the join less. The last holder to leave
    /// finishes the join. Fails with a `LogicalError` where nobody holds
    /// the join.
    pub fn detach(&mut self) -> (r: Result<(), ErrorCode>)
        requires
            old(self)@.wf(),
        ensures
            final(self)@.wf(),
            old(self)@.ref_count == 0 ==> r is Err && r->Err_0.kind == ErrorKind::LogicalError && final(self)@
                == old(self)@,
            old(self)@.ref_count == 1 ==> r is Ok && final(self)@ == (JoinView { ref_count: 0, ..old(self)@ }).finish(),
            old(self)@.ref_count > 1 ==> r is Ok && final(self)@ == (JoinView {
                ref_count: (old(self)@.ref_count - 1) as nat,
                ..old(self)@
            }),
    {
        if self.ref_count == 0 {
            return Err(ErrorCode::create(ErrorKind::LogicalError, "Detach without attach"));
        }
        self.ref_count = self.ref_count - 1;
        if self.ref_count == 0 {
            self.finish()
        } else {
            Ok(())
        }
    }

    /// Whether the join is finished.
    pub fn is_finished(&self) -> (r: Result<bool, ErrorCode>)
        ensures
            r is Ok,
            r->Ok_0 == self@.finished,
    {
        Ok(self.is_finished)
    }

    /// Adds the rows of `input` to the build side. The build keys are
    /// evaluated against the block; a join with serialized keys keeps the
    /// keys of the rows, any other join the key columns. Nothing is put
    /// into the table yet.
    ///
    /// Adds the chunk that [`build_outcome`] gives, or fails with the error
    /// that it gives and leaves the join as it is.
    #[verifier::rlimit(40)]
    pub fn build(&mut self, input: DataBlock) -> (r: Result<(), ErrorCode>)
        requires
            old(self)@.wf(),
        ensures
            final(self)@.wf(),
            match build_outcome(old(self)@, input@) {
                Ok(chunk) => r is Ok && final(self)@ == (JoinView {
                    chunks: old(self)@.chunks.push(chunk),
                    ..old(self)@
                }),
                Err(kind) => r is Err && r->Err_0.kind == kind && final(self)@ == old(self)@,
            },
    {
        if self.is_finished {
            return Err(ErrorCode::create(ErrorKind::LogicalError, "The join is finished"));
        }
        let rows = input.num_rows();
        let build_cols = eval_nodes(&self.hash_join_desc.build_keys, &input)?;
        if !same_types(&build_cols, &self.hash_join_desc.key_types) {
            return Err(ErrorCode::create(ErrorKind::LogicalError, "Key columns are not of the key types"));
        }
        let data_block = input.with_fields(&self.row_space.data_schema)?;
        if self.row_space.chunks.len() >= u32::MAX as usize || rows > u32::MAX as usize {
            return Err(ErrorCode::create(ErrorKind::LogicalError, "Too many rows"));
        }
        let kind = self.hash_table.method();
        let ghost cols = columns_view(build_cols@);
        let keys = match kind {
            HashMethodKind::Serializer => {
                // The keys are kept with the rows, so that they live as long
                // as the table that is made of them.
                let keys = build_keys(kind, &build_cols, rows)?;
                assert(keys_view(keys@) =~= serialized_keys(self@.key_types, cols, rows as nat));
                Some(keys)
            },
            _ => None,
        };
        let cols_kept = match (kind, self.hash_join_desc.join_type) {
            (HashMethodKind::Serializer, JoinType::Mark) => Some(build_cols),
            (HashMethodKind::Serializer, _) => None,
            _ => Some(build_cols),
        };
        let chunk = Chunk { data_block, cols: cols_kept, keys };
        proof {
            let expected = build_outcome(old(self)@, input@)->Ok_0;
            assert(chunk@.block.columns =~= expected.block.columns);
            assert(chunk@ == expected);
            assert(chunk_wf(chunk@, old(self)@)) by {
                let b = chunk@.block;
                assert(b.columns.len() == input@.columns.len());
            }
        }
        let ghost before = chunks_view(self.row_space.chunks@);
        self.row_space.chunks.push(chunk);
        proof {
            assert(chunks_view(self.row_space.chunks@) =~= before.push(chunk@));
            assert(self@.table == old(self)@.table);
            assert forall|i: int| 0 <= i < self@.chunks.len() implies chunk_wf(#[trigger] self@.chunks[i], self@) by {
                if i < before.len() {
                    assert(chunk_wf(old(self)@.chunks[i], old(self)@));
                }
            }
        }
        Ok(())
    }

    /// Puts the rows of the build side into the table, each under its key,
    /// in the order of the chunks and of the rows in them; rows with equal
    /// keys are all kept. A mark join gets its first verdicts. A join that
    /// is finished stays as it is.
    pub fn finish(&mut self) -> (r: Result<(), ErrorCode>)
        requires
            old(self)@.wf(),
        ensures
            r is Ok,
            final(self)@.wf(),
            final(self)@ == old(self)@.finish(),
    {
        if self.is_finished {
            return Ok(());
        }
        let ghost v0 = self@;
        let ghost chunks = v0.chunks;
        let is_mark = match self.hash_join_desc.join_type {
            JoinType::Mark => true,
            _ => false,
        };
        let mut chunk_index: usize = 0;
        assert(self.hash_join_desc.marker@ =~= initial_markers(chunks, 0));
        assert forall|key: Seq<u8>|
            #[trigger] self.hash_table.rows_for(key) == rows_with_key(v0.method, v0.key_types, chunks, 0, key) by {
            assert((v0.table)(key) == Seq::<RowPtr>::empty());
        }
        while chunk_index < self.row_space.chunks.len()
            invariant
                chunk_index <= self.row_space.chunks.len(),
                v0.wf(),
                !v0.finished,
                chunks == v0.chunks,
                is_mark == (v0.join_type == JoinType::Mark),
                self.is_finished == false,
                self@ == (JoinView { table: self@.table, marker: self@.marker, ..v0 }),
                self.hash_table.kind() == v0.method,
                forall|key: Seq<u8>|
                    #[trigger] self.hash_table.rows_for(key) == rows_with_key(
                        v0.method,
                        v0.key_types,
                        chunks,
                        chunk_index as nat,
                        key,
                    ),
                self@.marker == if is_mark {
                    initial_markers(chunks, chunk_index as nat)
                } else {
                    Seq::<MarkerKind>::empty()
                },
            decreases self.row_space.chunks.len() - chunk_index,
        {
            let chunk = &self.row_space.chunks[chunk_index];
            assert(chunks[chunk_index as int] == chunk@);
            assert(chunk_wf(chunk@, v0));
            if is_mark {
                match &chunk.cols {
                    Some(cols) => {
                        assert(columns_view(cols@)[0] == cols[0]@);
                        push_markers(&mut self.hash_join_desc.marker, &cols[0]);
                        assert(self.hash_join_desc.marker@ =~= initial_markers(chunks, (chunk_index + 1) as nat));
                    },
                    None => {},
                }
            }
            insert_key(&mut self.hash_table, chunk, chunk_index, Ghost(v0))?;
            chunk_index += 1;
        }
        self.is_finished = true;
        proof {
            assert(self@.table =~= old(self)@.finish().table);
        }
        Ok(())
    }

    /// Probes the join with the block `input` and returns the rows that
    /// the join puts out for it. `probe_state` is scratch space that the
    /// caller keeps between calls.
    ///
    /// Returns the blocks that [`probe_outcome`] gives, or fails with the
    /// error that it gives.
    pub fn probe(&self, input: &DataBlock, probe_state: &mut ProbeState) -> (r: Result<Vec<DataBlock>, ErrorCode>)
        requires
            self@.wf(),
        ensures
            match probe_outcome(self@, input@) {
                Ok(blocks) => r is Ok && blocks_view(r->Ok_0@) == blocks,
                Err(kind) => r is Err && r->Err_0.kind == kind,
            },
    {
        match self.hash_join_desc.join_type {
            JoinType::Cross => self.probe_cross_join(input, probe_state),
            _ => self.probe_join(input, probe_state),
        }
    }

    fn probe_cross_join(&self, input: &DataBlock, _probe_state: &mut ProbeState) -> (r: Result<
        Vec<DataBlock>,
        ErrorCode,
    >)
        requires
            self@.wf(),
            self@.join_type == JoinType::Cross,
        ensures
            match probe_outcome(self@, input@) {
                Ok(blocks) => r is Ok && blocks_view(r->Ok_0@) == blocks,
                Err(kind) => r is Err && r->Err_0.kind == kind,
            },
    {
        crate::hash_join::probe::probe_cross_join(&self.row_space, input, Ghost(self@))
    }

    fn probe_join(&self, input: &DataBlock, probe_state: &mut ProbeState) -> (r: Result<Vec<DataBlock>, ErrorCode>)
        requires
            self@.wf(),
            self@.join_type != JoinType::Cross,
        ensures
            match probe_outcome(self@, input@) {
                Ok(blocks) => r is Ok && blocks_view(r->Ok_0@) == blocks,
                Err(kind) => r is Err && r->Err_0.kind == kind,
            },
    {
        crate::hash_join::probe::probe_join(
            &self.hash_table,
            &self.row_space,
            &self.hash_join_desc,
            input,
            probe_state,
            Ghost(self@),
        )
    }

    /// Puts the columns of `build_block` beside those of `probe_block`,
    /// which has as many rows.
    pub fn merge_eq_block(&self, build_block: &DataBlock, probe_block: &DataBlock) -> (r: Result<
        DataBlock,
        ErrorCode,
    >)
        ensures
            same_rows(probe_block@, build_block@) ==> r is Ok && r->Ok_0@ == side_by_side(
                probe_block@,
                build_block@,
            ),
            !same_rows(probe_block@, build_block@) ==> r is Err && r->Err_0.kind == ErrorKind::LogicalError,
    {
        crate::hash_join::probe::merge_eq_block(build_block, probe_block)
    }

    /// Puts the one row of `probe_block` beside every row of `build_block`.
    pub fn merge_with_constant_block(&self, build_block: &DataBlock, probe_block: &DataBlock) -> (r: Result<
        DataBlock,
        ErrorCode,
    >)
        ensures
            one_row(probe_block@) ==> r is Ok && r->Ok_0@ == with_constant_row(build_block@, probe_block@, 0),
            !one_row(probe_block@) ==> r is Err && r->Err_0.kind == ErrorKind::LogicalError,
    {
        crate::hash_join::probe::merge_with_constant_block(build_block, probe_block)
    }

    /// The fields of the rows of the build side.
    pub fn build_schema(&self) -> (s: &Vec<DataField>)
        ensures
            fields_view(s@) == self@.schema,
    {
        &self.row_space.data_schema
    }
}

} // verus!
