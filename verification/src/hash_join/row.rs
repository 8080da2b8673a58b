//! The rows of the build side: the blocks as they came, in chunks, each
//! with what is needed to make the keys of its rows.

use crate::datavalues::block::BlockView;
use crate::datavalues::block::DataBlock;
use crate::datavalues::column::clone_fields;
use crate::datavalues::column::columns_view;
use crate::datavalues::column::fields_view;
use crate::datavalues::column::Column;
use crate::datavalues::column::ColumnView;
use crate::datavalues::column::DataField;
use crate::datavalues::column::DataFieldView;
use crate::datavalues::data_value::DataValue;
use crate::datavalues::data_value::DataValueView;
use crate::hash_join::table::RowPtr;
use vstd::prelude::*;

verus! {

/// One block of the build side. A join with serialized keys keeps the keys
/// of the rows, every other join the columns that the keys are made of.
pub struct Chunk {
    pub data_block: DataBlock,
    pub cols: Option<Vec<Column>>,
    pub keys: Option<Vec<Vec<u8>>>,
}

pub ghost struct ChunkView {
    pub block: BlockView,
    pub cols: Option<Seq<ColumnView>>,
    pub keys: Option<Seq<Seq<u8>>>,
}

/// The views of a vector of keys, one by one.
pub open spec fn keys_view(v: Seq<Vec<u8>>) -> Seq<Seq<u8>> {
    Seq::new(v.len(), |i: int| v[i]@)
}

impl View for Chunk {
    type V = ChunkView;

    open spec fn view(&self) -> ChunkView {
        ChunkView {
            block: self.data_block@,
            cols: match self.cols {
                Some(c) => Some(columns_view(c@)),
                None => None,
            },
            keys: match self.keys {
                Some(k) => Some(keys_view(k@)),
                None => None,
            },
        }
    }
}

impl Chunk {
    pub fn num_rows(&self) -> (n: usize)
        ensures
            n == self@.block.num_rows(),
            self@.block.wf(),
    {
        self.data_block.num_rows()
    }
}

/// The views of a vector of chunks, one by one.
pub open spec fn chunks_view(v: Seq<Chunk>) -> Seq<ChunkView> {
    Seq::new(v.len(), |i: int| v[i]@)
}

/// Whether `ptr` names a row of the chunks.
pub open spec fn valid_ptr(chunks: Seq<ChunkView>, ptr: RowPtr) -> bool {
    ptr.chunk_index < chunks.len() && ptr.row_index < chunks[ptr.chunk_index as int].block.num_rows()
}

/// The values of the row that `ptr` names.
pub open spec fn build_row(chunks: Seq<ChunkView>, ptr: RowPtr) -> Seq<DataValueView> {
    chunks[ptr.chunk_index as int].block.row(ptr.row_index as int)
}

/// The value in column `c` of the row that `ptr` names, `NULL` where there
/// is no row.
pub open spec fn gathered_value(chunks: Seq<ChunkView>, ptr: Option<RowPtr>, c: int) -> DataValueView {
    match ptr {
        Some(p) => chunks[p.chunk_index as int].block.columns[c].values[p.row_index as int],
        None => DataValueView::Null,
    }
}

/// The block that holds, for each of `ptrs`, the row that it names, or a
/// row of `NULL`s where it names none, under the fields `schema`.
pub open spec fn gathered(schema: Seq<DataFieldView>, chunks: Seq<ChunkView>, ptrs: Seq<Option<RowPtr>>) -> BlockView {
    BlockView {
        fields: schema,
        columns: Seq::new(
            schema.len(),
            |c: int|
                ColumnView {
                    data_type: schema[c].data_type,
                    values: Seq::new(ptrs.len(), |k: int| gathered_value(chunks, ptrs[k], c)),
                },
        ),
    }
}

/// The rows of the build side.
pub struct RowSpace {
    pub data_schema: Vec<DataField>,
    pub chunks: Vec<Chunk>,
}

impl RowSpace {
    /// Whether every chunk is a well-formed block under the fields of the
    /// row space.
    pub open spec fn wf(self) -> bool {
        forall|i: int|
            0 <= i < self.chunks.len() ==> (#[trigger] self.chunks[i])@.block.wf() && self.chunks[i]@.block.fields
                == fields_view(self.data_schema@)
    }

    /// A row space without rows.
    pub fn new(data_schema: Vec<DataField>) -> (r: RowSpace)
        ensures
            r.data_schema == data_schema,
            r.chunks@.len() == 0,
            r.wf(),
    {
        RowSpace { data_schema, chunks: Vec::new() }
    }

    /// The block of the rows that `ptrs` name, in that order, with a row of
    /// `NULL`s for each that names none.
    pub fn gather(&self, ptrs: &Vec<Option<RowPtr>>) -> (r: DataBlock)
        requires
            self.wf(),
            forall|k: int| 0 <= k < ptrs.len() ==> (#[trigger] ptrs[k] matches Some(p) ==> valid_ptr(chunks_view(self.chunks@), p)),
            (exists|k: int| 0 <= k < ptrs.len() && #[trigger] ptrs[k] is None) ==> forall|c: int|
                0 <= c < self.data_schema.len() ==> DataValueView::Null.fits((#[trigger] self.data_schema[c]).data_type),
        ensures
            r@ == gathered(fields_view(self.data_schema@), chunks_view(self.chunks@), ptrs@),
            r@.wf(),
    {
        let ghost schema = fields_view(self.data_schema@);
        let ghost chunks = chunks_view(self.chunks@);
        let mut columns: Vec<Column> = Vec::new();
        let mut c: usize = 0;
        while c < self.data_schema.len()
            invariant
                c <= self.data_schema.len(),
                self.wf(),
                schema == fields_view(self.data_schema@),
                chunks == chunks_view(self.chunks@),
                forall|k: int|
                    0 <= k < ptrs.len() ==> (#[trigger] ptrs[k] matches Some(p) ==> valid_ptr(chunks, p)),
                (exists|k: int| 0 <= k < ptrs.len() && #[trigger] ptrs[k] is None) ==> forall|j: int|
                    0 <= j < self.data_schema.len() ==> DataValueView::Null.fits(
                        (#[trigger] self.data_schema[j]).data_type,
                    ),
                columns.len() == c,
                forall|j: int|
                    0 <= j < c ==> (#[trigger] columns[j])@ == (ColumnView {
                        data_type: schema[j].data_type,
                        values: Seq::new(ptrs.len() as nat, |k: int| gathered_value(chunks, ptrs[k], j)),
                    }) && columns[j]@.wf(),
            decreases self.data_schema.len() - c,
        {
            let data_type = self.data_schema[c].data_type.clone();
            assert(schema[c as int] == self.data_schema[c as int]@);
            let mut column = Column::empty(data_type);
            let mut k: usize = 0;
            assert(Seq::<DataValueView>::empty() =~= Seq::new(0nat, |i: int| gathered_value(chunks, ptrs[i], c as int)));
            while k < ptrs.len()
                invariant
                    k <= ptrs.len(),
                    c < self.data_schema.len(),
                    self.wf(),
                    schema == fields_view(self.data_schema@),
                    chunks == chunks_view(self.chunks@),
                    forall|i: int|
                        0 <= i < ptrs.len() ==> (#[trigger] ptrs[i] matches Some(p) ==> valid_ptr(chunks, p)),
                    (exists|i: int| 0 <= i < ptrs.len() && #[trigger] ptrs[i] is None) ==> forall|j: int|
                        0 <= j < self.data_schema.len() ==> DataValueView::Null.fits(
                            (#[trigger] self.data_schema[j]).data_type,
                        ),
                    column@ == (ColumnView {
                        data_type: schema[c as int].data_type,
                        values: Seq::new(k as nat, |i: int| gathered_value(chunks, ptrs[i], c as int)),
                    }),
                decreases ptrs.len() - k,
            {
                let ghost before = column@.values;
                match ptrs[k] {
                    Some(p) => {
                        assert(valid_ptr(chunks, p));
                        let chunk = &self.chunks[p.chunk_index as usize];
                        assert(chunks[p.chunk_index as int] == chunk@);
                        assert(chunk@.block.wf());
                        assert(chunk@.block.fields.len() == schema.len());
                        let source = chunk.data_block.column(c);
                        assert(chunk@.block.columns[c as int].values.len() == chunk@.block.num_rows());
                        let value = source.get(p.row_index as usize).clone();
                        assert(chunk@.block.columns[c as int].data_type == chunk@.block.fields[c as int].data_type);
                        column = column.push(value);
                    },
                    None => {
                        assert(ptrs[k as int] is None);
                        assert(DataValueView::Null.fits(self.data_schema[c as int].data_type));
                        column = column.push(DataValue::Null);
                    },
                }
                assert(column@.values =~= Seq::new(
                    (k + 1) as nat,
                    |i: int| gathered_value(chunks, ptrs[i], c as int),
                ));
                k += 1;
            }
            proof {
                use_type_invariant(&column);
            }
            columns.push(column);
            c += 1;
        }
        let fields = clone_fields(&self.data_schema);
        let ghost expected = gathered(schema, chunks, ptrs@);
        assert(columns_view(columns@) =~= expected.columns);
        assert(expected.wf()) by {
            assert forall|j: int| 0 <= j < expected.columns.len() implies {
                &&& (#[trigger] expected.columns[j]).wf()
                &&& expected.columns[j].data_type == expected.fields[j].data_type
                &&& expected.columns[j].values.len() == expected.num_rows()
            } by {
                assert(expected.columns[j] == columns[j]@);
            }
        }
        assert(fields_view(fields@) == expected.fields);
        DataBlock::from_parts(fields, columns)
    }
}

} // verus!
