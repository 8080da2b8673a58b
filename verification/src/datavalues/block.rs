//! Blocks: named, typed columns of one length.

use crate::datavalues::column::clone_columns;
use crate::datavalues::column::clone_fields;
use crate::datavalues::column::columns_view;
use crate::datavalues::column::fields_view;
use crate::datavalues::column::Column;
use crate::datavalues::column::ColumnView;
use crate::datavalues::column::DataField;
use crate::datavalues::column::DataFieldView;
use crate::datavalues::data_value::DataValueView;
use crate::error::ErrorCode;
use crate::error::ErrorKind;
use vstd::prelude::*;

verus! {

/// What a block stands for: its fields and, for each field, a column.
pub ghost struct BlockView {
    pub fields: Seq<DataFieldView>,
    pub columns: Seq<ColumnView>,
}

impl BlockView {
    /// The number of rows: the length of the columns, 0 for a block without
    /// columns.
    pub open spec fn num_rows(self) -> nat {
        if self.columns.len() == 0 {
            0
        } else {
            self.columns[0].values.len()
        }
    }

    /// There is one column for each field, of the field's type, holding
    /// values of that type, and all columns have one length.
    pub open spec fn wf(self) -> bool {
        &&& self.fields.len() == self.columns.len()
        &&& forall|c: int|
            0 <= c < self.columns.len() ==> {
                &&& (#[trigger] self.columns[c]).wf()
                &&& self.columns[c].data_type == self.fields[c].data_type
                &&& self.columns[c].values.len() == self.num_rows()
            }
    }

    /// The values of the row at position `i`, one for each column.
    pub open spec fn row(self, i: int) -> Seq<DataValueView> {
        Seq::new(self.columns.len(), |c: int| self.columns[c].values[i])
    }

    /// The rows of the block in their order.
    pub open spec fn rows(self) -> Seq<Seq<DataValueView>> {
        Seq::new(self.num_rows(), |i: int| self.row(i))
    }

    /// The position of the first field named `name`, if there is one.
    pub open spec fn index_of(self, name: Seq<char>) -> Option<int> {
        first_named(self.fields, name)
    }
}

/// The position of the first field of `fields` named `name`, if there is
/// one.
pub open spec fn first_named(fields: Seq<DataFieldView>, name: Seq<char>) -> Option<int>
    decreases fields.len(),
{
    if fields.len() == 0 {
        None
    } else {
        match first_named(fields.drop_last(), name) {
            Some(i) => Some(i),
            None => if fields.last().name == name {
                Some(fields.len() - 1)
            } else {
                None
            },
        }
    }
}

/// Whether a block with fields `from` can be held under the fields `to`:
/// there are as many, and each type of `to` is the type of `from` or that
/// type made nullable.
pub open spec fn fields_accept(to: Seq<DataFieldView>, from: Seq<DataFieldView>) -> bool {
    &&& to.len() == from.len()
    &&& forall|c: int|
        0 <= c < to.len() ==> (#[trigger] to[c]).data_type == from[c].data_type || to[c].data_type
            == from[c].data_type.wrap_nullable()
}

/// A block of rows.
#[derive(Debug, PartialEq, Eq)]
pub struct DataBlock {
    fields: Vec<DataField>,
    columns: Vec<Column>,
}

impl View for DataBlock {
    type V = BlockView;

    closed spec fn view(&self) -> BlockView {
        BlockView { fields: fields_view(self.fields@), columns: columns_view(self.columns@) }
    }
}

impl DataBlock {
    /// The columns of a block fit its fields and have one length.
    #[verifier::type_invariant]
    pub open spec fn well_formed(self) -> bool {
        self@.wf()
    }

    /// The block without fields and rows.
    pub fn empty() -> (r: DataBlock)
        ensures
            r@ == (BlockView { fields: Seq::empty(), columns: Seq::empty() }),
    {
        let fields: Vec<DataField> = Vec::new();
        let columns: Vec<Column> = Vec::new();
        assert(fields_view(fields@) =~= Seq::<DataFieldView>::empty());
        assert(columns_view(columns@) =~= Seq::<ColumnView>::empty());
        DataBlock { fields, columns }
    }

    /// The block with the given fields and no rows.
    pub fn empty_with_fields(fields: &Vec<DataField>) -> (r: DataBlock)
        ensures
            r@.fields == fields_view(fields@),
            r@.columns == Seq::new(
                fields.len() as nat,
                |c: int| ColumnView { data_type: fields[c].data_type, values: Seq::empty() },
            ),
            r@.wf(),
    {
        let mut columns: Vec<Column> = Vec::new();
        let mut c: usize = 0;
        while c < fields.len()
            invariant
                c <= fields.len(),
                columns.len() == c,
                forall|j: int|
                    0 <= j < c ==> (#[trigger] columns[j])@ == (ColumnView {
                        data_type: fields[j].data_type,
                        values: Seq::empty(),
                    }),
            decreases fields.len() - c,
        {
            columns.push(Column::empty(fields[c].data_type.clone()));
            c += 1;
        }
        let copy = clone_fields(fields);
        let ghost view = BlockView { fields: fields_view(copy@), columns: columns_view(columns@) };
        assert(view.columns =~= Seq::new(
            fields.len() as nat,
            |c: int| ColumnView { data_type: fields[c].data_type, values: Seq::empty() },
        ));
        assert(view.wf()) by {
            assert forall|j: int| 0 <= j < view.columns.len() implies {
                &&& (#[trigger] view.columns[j]).wf()
                &&& view.columns[j].data_type == view.fields[j].data_type
                &&& view.columns[j].values.len() == view.num_rows()
            } by {
                assert(view.fields[j] == fields[j]@);
            }
        }
        DataBlock { fields: copy, columns }
    }

    /// The block with the given fields and columns, which are known to
    /// make a block.
    pub(crate) fn from_parts(fields: Vec<DataField>, columns: Vec<Column>) -> (r: DataBlock)
        requires
            (BlockView { fields: fields_view(fields@), columns: columns_view(columns@) }).wf(),
        ensures
            r@ == (BlockView { fields: fields_view(fields@), columns: columns_view(columns@) }),
    {
        DataBlock { fields, columns }
    }

    /// The block with the given fields and columns, or a `LogicalError`
    /// where they do not make a block.
    pub fn create(fields: Vec<DataField>, columns: Vec<Column>) -> (r: Result<DataBlock, ErrorCode>)
        ensures
            (BlockView { fields: fields_view(fields@), columns: columns_view(columns@) }).wf() ==> r is Ok
                && r->Ok_0@ == (BlockView { fields: fields_view(fields@), columns: columns_view(columns@) }),
            !(BlockView { fields: fields_view(fields@), columns: columns_view(columns@) }).wf() ==> r is Err
                && r->Err_0.kind == ErrorKind::LogicalError,
    {
        let ghost view = BlockView { fields: fields_view(fields@), columns: columns_view(columns@) };
        if fields.len() != columns.len() {
            return Err(ErrorCode::create(ErrorKind::LogicalError, "Fields and columns differ in number"));
        }
        let mut c: usize = 0;
        while c < columns.len()
            invariant
                c <= columns.len(),
                fields.len() == columns.len(),
                view == (BlockView { fields: fields_view(fields@), columns: columns_view(columns@) }),
                forall|j: int|
                    0 <= j < c ==> {
                        &&& (#[trigger] view.columns[j]).wf()
                        &&& view.columns[j].data_type == view.fields[j].data_type
                        &&& view.columns[j].values.len() == view.num_rows()
                    },
            decreases columns.len() - c,
        {
            let n = columns[c].len();
            if !columns[c].data_type().same(fields[c].data_type()) || n != columns[0].len() {
                assert(!{
                    &&& (#[trigger] view.columns[c as int]).wf()
                    &&& view.columns[c as int].data_type == view.fields[c as int].data_type
                    &&& view.columns[c as int].values.len() == view.num_rows()
                });
                return Err(ErrorCode::create(ErrorKind::LogicalError, "Column does not fit the block"));
            }
            c += 1;
        }
        Ok(DataBlock { fields, columns })
    }

    /// The number of rows. The block is well formed.
    pub fn num_rows(&self) -> (n: usize)
        ensures
            n == self@.num_rows(),
            self@.wf(),
    {
        proof {
            use_type_invariant(self);
        }
        if self.columns.len() == 0 {
            0
        } else {
            self.columns[0].len()
        }
    }

    pub fn num_columns(&self) -> (n: usize)
        ensures
            n == self@.columns.len(),
            n == self@.fields.len(),
            self@.wf(),
    {
        proof {
            use_type_invariant(self);
        }
        self.columns.len()
    }

    /// The fields of the block.
    pub fn fields(&self) -> (f: &Vec<DataField>)
        ensures
            fields_view(f@) == self@.fields,
    {
        &self.fields
    }

    /// The columns of the block.
    pub fn columns(&self) -> (c: &Vec<Column>)
        ensures
            columns_view(c@) == self@.columns,
    {
        &self.columns
    }

    /// The column at position `index`.
    pub fn column(&self, index: usize) -> (c: &Column)
        requires
            index < self@.columns.len(),
        ensures
            c@ == self@.columns[index as int],
    {
        &self.columns[index]
    }

    /// The field at position `index`.
    pub fn field(&self, index: usize) -> (f: &DataField)
        requires
            index < self@.fields.len(),
        ensures
            f@ == self@.fields[index as int],
    {
        &self.fields[index]
    }

    /// The position of the first field named `name`, if there is one.
    pub fn index_of(&self, name: &str) -> (r: Option<usize>)
        ensures
            r is Some <==> self@.index_of(name@) is Some,
            r matches Some(k) ==> self@.index_of(name@) == Some(k as int) && k < self@.fields.len()
                && self@.fields[k as int].name == name@,
    {
        let ghost all = fields_view(self.fields@);
        let mut i: usize = 0;
        assert(all.take(0) =~= Seq::<DataFieldView>::empty());
        while i < self.fields.len()
            invariant
                i <= self.fields.len(),
                all == fields_view(self.fields@),
                first_named(all.take(i as int), name@) is None,
            decreases self.fields.len() - i,
        {
            let found = self.fields[i].name.as_str().to_owned() == name.to_owned();
            proof {
                assert(all.take(i + 1).drop_last() =~= all.take(i as int));
                assert(all.take(i + 1).last() == all[i as int]);
            }
            if found {
                proof {
                    lemma_first_named_extends(all, i + 1, name@);
                }
                return Some(i);
            }
            i += 1;
        }
        assert(all.take(i as int) =~= all);
        None
    }

    /// The block with `column` added as its last column, under `field`.
    ///
    /// Fails with a `LogicalError` where the column is not of the field's
    /// type, or is not as long as the columns that the block has.
    pub fn add_column(self, column: Column, field: DataField) -> (r: Result<DataBlock, ErrorCode>)
        ensures
            self@.wf(),
            (column@.data_type == field@.data_type && (self@.columns.len() == 0 || column@.values.len()
                == self@.num_rows())) ==> r is Ok && r->Ok_0@ == (BlockView {
                fields: self@.fields.push(field@),
                columns: self@.columns.push(column@),
            }),
            !(column@.data_type == field@.data_type && (self@.columns.len() == 0 || column@.values.len()
                == self@.num_rows())) ==> r is Err && r->Err_0.kind == ErrorKind::LogicalError,
    {
        proof {
            use_type_invariant(&self);
        }
        let rows = self.num_rows();
        if !column.data_type().same(field.data_type()) || (self.columns.len() != 0 && column.len() != rows) {
            return Err(ErrorCode::create(ErrorKind::LogicalError, "Column does not fit the block"));
        }
        let ghost old_view = self@;
        let ghost col_view = column@;
        proof {
            use_type_invariant(&column);
        }
        let mut fields = self.fields;
        let mut columns = self.columns;
        fields.push(field);
        columns.push(column);
        let ghost view = BlockView { fields: fields_view(fields@), columns: columns_view(columns@) };
        assert(view.fields =~= old_view.fields.push(field@));
        assert(view.columns =~= old_view.columns.push(col_view));
        assert(view.wf()) by {
            assert forall|j: int| 0 <= j < view.columns.len() implies {
                &&& (#[trigger] view.columns[j]).wf()
                &&& view.columns[j].data_type == view.fields[j].data_type
                &&& view.columns[j].values.len() == view.num_rows()
            } by {
                if j < old_view.columns.len() {
                    assert(old_view.columns[j].wf());
                    assert(old_view.columns[0].wf());
                }
            }
        }
        Ok(DataBlock { fields, columns })
    }

    /// The rows at the positions `indices`, in that order, or a
    /// `LogicalError` where a position is not below the number of rows.
    pub fn block_take_by_indices(block: &DataBlock, indices: &Vec<u32>) -> (r: Result<DataBlock, ErrorCode>)
        ensures
            block@.wf(),
            (forall|k: int| 0 <= k < indices.len() ==> (#[trigger] indices[k]) < block@.num_rows()) ==> {
                &&& r is Ok
                &&& r->Ok_0@.wf()
                &&& r->Ok_0@.fields == block@.fields
                &&& r->Ok_0@.columns.len() == block@.columns.len()
                &&& forall|c: int|
                    0 <= c < block@.columns.len() ==> {
                        &&& (#[trigger] r->Ok_0@.columns[c]).values.len() == indices.len()
                        &&& forall|k: int|
                            0 <= k < indices.len() ==> r->Ok_0@.columns[c].values[k]
                                == block@.columns[c].values[indices[k] as int]
                    }
            },
            !(forall|k: int| 0 <= k < indices.len() ==> (#[trigger] indices[k]) < block@.num_rows()) ==> r is Err
                && r->Err_0.kind == ErrorKind::LogicalError,
    {
        proof {
            use_type_invariant(block);
        }
        let rows = block.num_rows();
        let mut k: usize = 0;
        while k < indices.len()
            invariant
                k <= indices.len(),
                block@.wf(),
                rows == block@.num_rows(),
                forall|j: int| 0 <= j < k ==> (#[trigger] indices[j]) < rows,
            decreases indices.len() - k,
        {
            if indices[k] as usize >= rows {
                return Err(ErrorCode::create(ErrorKind::LogicalError, "Row index out of range"));
            }
            k += 1;
        }
        let mut columns: Vec<Column> = Vec::new();
        let mut c: usize = 0;
        while c < block.columns.len()
            invariant
                c <= block.columns.len(),
                columns.len() == c,
                block@.wf(),
                rows == block@.num_rows(),
                forall|j: int| 0 <= j < indices.len() ==> (#[trigger] indices[j]) < rows,
                forall|j: int|
                    0 <= j < c ==> {
                        &&& (#[trigger] columns[j])@.data_type == block@.columns[j].data_type
                        &&& columns[j]@.values.len() == indices.len()
                        &&& columns[j]@.wf()
                        &&& forall|k: int|
                            0 <= k < indices.len() ==> columns[j]@.values[k]
                                == block@.columns[j].values[indices[k] as int]
                    },
            decreases block.columns.len() - c,
        {
            assert(block@.columns[c as int].wf());
            let taken = block.columns[c].take(indices);
            proof {
                use_type_invariant(&taken);
            }
            columns.push(taken);
            c += 1;
        }
        let fields = clone_fields(&block.fields);
        let ghost view = BlockView { fields: fields_view(fields@), columns: columns_view(columns@) };
        assert(view.wf()) by {
            assert forall|j: int| 0 <= j < view.columns.len() implies {
                &&& (#[trigger] view.columns[j]).wf()
                &&& view.columns[j].data_type == view.fields[j].data_type
                &&& view.columns[j].values.len() == view.num_rows()
            } by {
                assert(view.columns[j] == columns[j]@);
                assert(view.columns[0] == columns[0]@);
                assert(block@.columns[j].wf());
            }
        }
        let r = DataBlock { fields, columns };
        assert forall|c: int| 0 <= c < block@.columns.len() implies {
            &&& (#[trigger] r@.columns[c]).values.len() == indices.len()
            &&& forall|k: int|
                0 <= k < indices.len() ==> r@.columns[c].values[k] == block@.columns[c].values[indices[k] as int]
        } by {
            assert(r@.columns[c] == columns[c]@);
        }
        Ok(r)
    }

    /// The same rows under the fields `fields`, which may make types
    /// nullable, or a `LogicalError` where the fields do not accept the
    /// block.
    pub fn with_fields(&self, fields: &Vec<DataField>) -> (r: Result<DataBlock, ErrorCode>)
        ensures
            self@.wf(),
            fields_accept(fields_view(fields@), self@.fields) ==> {
                &&& r is Ok
                &&& r->Ok_0@.wf()
                &&& r->Ok_0@.fields == fields_view(fields@)
                &&& r->Ok_0@.columns.len() == self@.columns.len()
                &&& forall|c: int|
                    0 <= c < self@.columns.len() ==> (#[trigger] r->Ok_0@.columns[c]).values
                        == self@.columns[c].values
            },
            !fields_accept(fields_view(fields@), self@.fields) ==> r is Err && r->Err_0.kind
                == ErrorKind::LogicalError,
    {
        proof {
            use_type_invariant(self);
        }
        let ghost to = fields_view(fields@);
        if fields.len() != self.fields.len() {
            return Err(ErrorCode::create(ErrorKind::LogicalError, "Schema not matched"));
        }
        let mut columns: Vec<Column> = Vec::new();
        let mut c: usize = 0;
        while c < self.columns.len()
            invariant
                c <= self.columns.len(),
                columns.len() == c,
                self@.wf(),
                to == fields_view(fields@),
                fields.len() == self.fields.len(),
                forall|j: int|
                    0 <= j < c ==> (#[trigger] to[j]).data_type == self@.fields[j].data_type || to[j].data_type
                        == self@.fields[j].data_type.wrap_nullable(),
                forall|j: int|
                    0 <= j < c ==> {
                        &&& (#[trigger] columns[j])@.data_type == to[j].data_type
                        &&& columns[j]@.values == self@.columns[j].values
                        &&& columns[j]@.wf()
                    },
            decreases self.columns.len() - c,
        {
            assert(self@.columns[c as int].wf());
            assert(self@.fields[c as int] == self.fields[c as int]@);
            assert(to[c as int] == fields[c as int]@);
            let target = fields[c].data_type();
            let column = &self.columns[c];
            if target.same(column.data_type()) {
                let copy = column.clone();
                proof {
                    use_type_invariant(&copy);
                }
                columns.push(copy);
            } else if target.same(&column.data_type().to_nullable()) {
                let copy = column.to_nullable();
                proof {
                    use_type_invariant(&copy);
                }
                columns.push(copy);
            } else {
                assert(!(to[c as int].data_type == self@.fields[c as int].data_type || to[c as int].data_type
                    == self@.fields[c as int].data_type.wrap_nullable()));
                return Err(ErrorCode::create(ErrorKind::LogicalError, "Schema not matched"));
            }
            c += 1;
        }
        let copy = clone_fields(fields);
        let ghost view = BlockView { fields: fields_view(copy@), columns: columns_view(columns@) };
        assert(view.wf()) by {
            assert forall|j: int| 0 <= j < view.columns.len() implies {
                &&& (#[trigger] view.columns[j]).wf()
                &&& view.columns[j].data_type == view.fields[j].data_type
                &&& view.columns[j].values.len() == view.num_rows()
            } by {
                assert(view.columns[j] == columns[j]@);
                assert(view.columns[0] == columns[0]@);
                assert(self@.columns[j].wf());
                assert(self@.columns[0].wf());
            }
        }
        let r = DataBlock { fields: copy, columns };
        assert forall|c: int| 0 <= c < self@.columns.len() implies (#[trigger] r@.columns[c]).values
            == self@.columns[c].values by {
            assert(r@.columns[c] == columns[c]@);
        }
        Ok(r)
    }

    /// The rows of `self` followed by the rows of `other`, whose fields
    /// have the same types, or a `LogicalError` where they have not.
    pub fn append_block(self, other: &DataBlock) -> (r: Result<DataBlock, ErrorCode>)
        ensures
            self@.wf(),
            other@.wf(),
            same_types(self@.fields, other@.fields) ==> {
                &&& r is Ok
                &&& r->Ok_0@.wf()
                &&& r->Ok_0@.fields == self@.fields
                &&& r->Ok_0@.columns.len() == self@.columns.len()
                &&& forall|c: int|
                    0 <= c < self@.columns.len() ==> (#[trigger] r->Ok_0@.columns[c]).values
                        == self@.columns[c].values + other@.columns[c].values
            },
            !same_types(self@.fields, other@.fields) ==> r is Err && r->Err_0.kind == ErrorKind::LogicalError,
    {
        proof {
            use_type_invariant(&self);
            use_type_invariant(other);
        }
        if self.fields.len() != other.fields.len() {
            return Err(ErrorCode::create(ErrorKind::LogicalError, "Schema not matched"));
        }
        let mut c: usize = 0;
        while c < self.fields.len()
            invariant
                c <= self.fields.len(),
                self@.wf(),
                other@.wf(),
                self.fields.len() == other.fields.len(),
                forall|j: int| 0 <= j < c ==> (#[trigger] self@.fields[j]).data_type == other@.fields[j].data_type,
            decreases self.fields.len() - c,
        {
            assert(self@.fields[c as int] == self.fields[c as int]@);
            assert(other@.fields[c as int] == other.fields[c as int]@);
            if !self.fields[c].data_type.same(&other.fields[c].data_type) {
                assert(self@.fields[c as int].data_type != other@.fields[c as int].data_type);
                return Err(ErrorCode::create(ErrorKind::LogicalError, "Schema not matched"));
            }
            c += 1;
        }
        let ghost first = self@;
        let mut columns: Vec<Column> = Vec::new();
        let mut c: usize = 0;
        while c < self.columns.len()
            invariant
                c <= self.columns.len(),
                columns.len() == c,
                first == self@,
                first.wf(),
                other@.wf(),
                same_types(first.fields, other@.fields),
                forall|j: int|
                    0 <= j < c ==> {
                        &&& (#[trigger] columns[j])@.data_type == first.columns[j].data_type
                        &&& columns[j]@.values == first.columns[j].values + other@.columns[j].values
                        &&& columns[j]@.wf()
                    },
            decreases self.columns.len() - c,
        {
            assert(first.columns[c as int].wf());
            assert(other@.columns[c as int].wf());
            assert(first.fields[c as int].data_type == other@.fields[c as int].data_type);
            let column = self.columns[c].clone().append(&other.columns[c]);
            proof {
                use_type_invariant(&column);
            }
            columns.push(column);
            c += 1;
        }
        let fields = self.fields;
        let ghost view = BlockView { fields: fields_view(fields@), columns: columns_view(columns@) };
        assert(view.wf()) by {
            assert forall|j: int| 0 <= j < view.columns.len() implies {
                &&& (#[trigger] view.columns[j]).wf()
                &&& view.columns[j].data_type == view.fields[j].data_type
                &&& view.columns[j].values.len() == view.num_rows()
            } by {
                assert(view.columns[j] == columns[j]@);
                assert(view.columns[0] == columns[0]@);
                assert(first.columns[j].wf());
                assert(first.columns[0].wf());
                assert(other@.columns[j].wf());
                assert(other@.columns[0].wf());
            }
        }
        let r = DataBlock { fields, columns };
        assert forall|c: int| 0 <= c < first.columns.len() implies (#[trigger] r@.columns[c]).values
            == first.columns[c].values + other@.columns[c].values by {
            assert(r@.columns[c] == columns[c]@);
        }
        Ok(r)
    }
}

/// Whether two lists of fields have the same types, position by position.
pub open spec fn same_types(a: Seq<DataFieldView>, b: Seq<DataFieldView>) -> bool {
    &&& a.len() == b.len()
    &&& forall|c: int| 0 <= c < a.len() ==> (#[trigger] a[c]).data_type == b[c].data_type
}

/// A name is found at a field that has it.
pub proof fn lemma_first_named_range(fields: Seq<DataFieldView>, name: Seq<char>)
    ensures
        first_named(fields, name) matches Some(i) ==> 0 <= i < fields.len() && fields[i].name == name,
    decreases fields.len(),
{
    if fields.len() > 0 {
        lemma_first_named_range(fields.drop_last(), name);
    }
}

/// A name that is found among the first `n` fields is found at the same
/// place among all of them.
pub proof fn lemma_first_named_extends(fields: Seq<DataFieldView>, n: int, name: Seq<char>)
    requires
        0 <= n <= fields.len(),
        first_named(fields.take(n), name) is Some,
    ensures
        first_named(fields, name) == first_named(fields.take(n), name),
    decreases fields.len() - n,
{
    if n < fields.len() {
        assert(fields.take(n + 1).drop_last() =~= fields.take(n));
        lemma_first_named_extends(fields, n + 1, name);
    } else {
        assert(fields.take(n) =~= fields);
    }
}

impl Clone for DataBlock {
    fn clone(&self) -> (r: DataBlock)
        ensures
            r@ == self@,
    {
        proof {
            use_type_invariant(self);
        }
        DataBlock { fields: clone_fields(&self.fields), columns: clone_columns(&self.columns) }
    }
}

} // verus!
