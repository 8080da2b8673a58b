//! Columns of values and the blocks that hold them side by side.

use crate::datavalues::data_type::DataType;
use crate::datavalues::data_value::DataValue;
use crate::datavalues::data_value::DataValueView;
use crate::error::ErrorCode;
use crate::error::ErrorKind;
use vstd::prelude::*;

verus! {

/// The name and the type of a column of a block.
#[derive(Debug, PartialEq, Eq)]
pub struct DataField {
    pub name: String,
    pub data_type: DataType,
}

pub ghost struct DataFieldView {
    pub name: Seq<char>,
    pub data_type: DataType,
}

impl View for DataField {
    type V = DataFieldView;

    open spec fn view(&self) -> DataFieldView {
        DataFieldView { name: self.name@, data_type: self.data_type }
    }
}

impl DataField {
    pub fn new(name: &str, data_type: DataType) -> (f: DataField)
        ensures
            f@ == (DataFieldView { name: name@, data_type }),
    {
        DataField { name: name.to_owned(), data_type }
    }

    /// A field whose type is `data_type` made nullable.
    pub fn new_nullable(name: &str, data_type: DataType) -> (f: DataField)
        ensures
            f@ == (DataFieldView { name: name@, data_type: data_type.wrap_nullable() }),
    {
        DataField { name: name.to_owned(), data_type: data_type.to_nullable() }
    }

    pub fn name(&self) -> (n: &str)
        ensures
            n@ == self@.name,
    {
        self.name.as_str()
    }

    pub fn data_type(&self) -> (t: &DataType)
        ensures
            *t == self@.data_type,
    {
        &self.data_type
    }
}

impl Clone for DataField {
    fn clone(&self) -> (r: DataField)
        ensures
            r@ == self@,
    {
        DataField { name: self.name.clone(), data_type: self.data_type.clone() }
    }
}

/// The views of a vector of fields, one by one.
pub open spec fn fields_view(v: Seq<DataField>) -> Seq<DataFieldView> {
    Seq::new(v.len(), |i: int| v[i]@)
}

/// A copy of a vector of fields.
pub fn clone_fields(v: &Vec<DataField>) -> (r: Vec<DataField>)
    ensures
        fields_view(r@) == fields_view(v@),
{
    let mut out: Vec<DataField> = Vec::new();
    let mut i: usize = 0;
    while i < v.len()
        invariant
            i <= v.len(),
            out.len() == i,
            forall|j: int| 0 <= j < i ==> out[j]@ == v[j]@,
        decreases v.len() - i,
    {
        out.push(v[i].clone());
        i += 1;
    }
    assert(fields_view(out@) =~= fields_view(v@));
    out
}

/// What a column stands for: a type and a sequence of values.
pub ghost struct ColumnView {
    pub data_type: DataType,
    pub values: Seq<DataValueView>,
}

impl ColumnView {
    /// Every value is a value of the column's type.
    pub open spec fn wf(self) -> bool {
        forall|i: int| 0 <= i < self.values.len() ==> (#[trigger] self.values[i]).fits(self.data_type)
    }
}

/// The views of a sequence of values, one by one.
pub open spec fn values_view(v: Seq<DataValue>) -> Seq<DataValueView> {
    Seq::new(v.len(), |i: int| v[i]@)
}

/// A column: values of one type.
#[derive(Debug, PartialEq, Eq)]
pub struct Column {
    data_type: DataType,
    values: Vec<DataValue>,
}

impl View for Column {
    type V = ColumnView;

    closed spec fn view(&self) -> ColumnView {
        ColumnView { data_type: self.data_type, values: values_view(self.values@) }
    }
}

/// A value of a type is a value of the type made nullable.
pub proof fn lemma_fits_nullable(v: DataValueView, t: DataType)
    requires
        v.fits(t),
    ensures
        v.fits(t.wrap_nullable()),
{
    reveal_with_fuel(DataValueView::fits, 2);
}

/// `NULL` is a value of every type that was made nullable.
pub proof fn lemma_null_fits_nullable(t: DataType)
    ensures
        DataValueView::Null.fits(t.wrap_nullable()),
{
    reveal_with_fuel(DataValueView::fits, 2);
}

impl Column {
    /// Every value of a column is a value of its type.
    #[verifier::type_invariant]
    pub open spec fn well_formed(self) -> bool {
        self@.wf()
    }

    /// A column of type `data_type` with the given values, or a
    /// `BadDataValueType` error where one of them is no value of the type.
    pub fn try_create(data_type: DataType, values: Vec<DataValue>) -> (r: Result<Column, ErrorCode>)
        ensures
            (ColumnView { data_type, values: values_view(values@) }).wf() ==> r is Ok && r->Ok_0@ == (ColumnView {
                data_type,
                values: values_view(values@),
            }),
            !(ColumnView { data_type, values: values_view(values@) }).wf() ==> r is Err && r->Err_0.kind
                == ErrorKind::BadDataValueType,
    {
        let mut i: usize = 0;
        while i < values.len()
            invariant
                i <= values.len(),
                forall|j: int| 0 <= j < i ==> (#[trigger] values_view(values@)[j]).fits(data_type),
            decreases values.len() - i,
        {
            if !values[i].has_type(&data_type) {
                assert(!values_view(values@)[i as int].fits(data_type));
                assert(!(ColumnView { data_type, values: values_view(values@) }).values[i as int].fits(data_type));
                return Err(ErrorCode::create(ErrorKind::BadDataValueType, "Value does not belong to the type"));
            }
            i += 1;
        }
        Ok(Column { data_type, values })
    }

    /// A column without values.
    pub fn empty(data_type: DataType) -> (r: Column)
        ensures
            r@ == (ColumnView { data_type, values: Seq::empty() }),
    {
        let r = Column { data_type, values: Vec::new() };
        assert(r@.values =~= Seq::<DataValueView>::empty());
        r
    }

    pub fn data_type(&self) -> (t: &DataType)
        ensures
            *t == self@.data_type,
    {
        &self.data_type
    }

    /// The number of values. Every value is a value of the column's type.
    pub fn len(&self) -> (n: usize)
        ensures
            n == self@.values.len(),
            self@.wf(),
    {
        proof {
            use_type_invariant(self);
        }
        self.values.len()
    }

    /// The value at position `index`.
    pub fn get(&self, index: usize) -> (v: &DataValue)
        requires
            index < self@.values.len(),
        ensures
            v@ == self@.values[index as int],
            v@.fits(self@.data_type),
    {
        proof {
            use_type_invariant(self);
            assert(self@.values[index as int].fits(self@.data_type));
        }
        &self.values[index]
    }

    /// Adds a value at the end, where it is a value of the column's type.
    pub fn push(self, value: DataValue) -> (r: Column)
        requires
            value@.fits(self@.data_type),
        ensures
            r@ == (ColumnView { data_type: self@.data_type, values: self@.values.push(value@) }),
    {
        proof {
            use_type_invariant(&self);
        }
        let mut values = self.values;
        let ghost before = values_view(values@);
        values.push(value);
        assert(values_view(values@) =~= before.push(value@));
        assert forall|j: int| 0 <= j < values.len() implies (#[trigger] values_view(values@)[j]).fits(
            self.data_type,
        ) by {
            if j < before.len() {
                assert(before[j].fits(self.data_type));
            }
        }
        Column { data_type: self.data_type, values }
    }

    /// The values at the positions `indices`, in that order.
    pub fn take(&self, indices: &Vec<u32>) -> (r: Column)
        requires
            forall|k: int| 0 <= k < indices.len() ==> (#[trigger] indices[k]) < self@.values.len(),
        ensures
            r@.data_type == self@.data_type,
            r@.values.len() == indices.len(),
            forall|k: int| 0 <= k < indices.len() ==> r@.values[k] == self@.values[indices[k] as int],
    {
        proof {
            use_type_invariant(self);
        }
        let mut values: Vec<DataValue> = Vec::new();
        let mut k: usize = 0;
        while k < indices.len()
            invariant
                k <= indices.len(),
                values.len() == k,
                forall|j: int| 0 <= j < indices.len() ==> (#[trigger] indices[j]) < self.values.len(),
                forall|j: int| 0 <= j < k ==> values[j]@ == self.values[indices[j] as int]@,
            decreases indices.len() - k,
        {
            values.push(self.values[indices[k] as usize].clone());
            k += 1;
        }
        assert forall|j: int| 0 <= j < values.len() implies (#[trigger] values_view(values@)[j]).fits(
            self.data_type,
        ) by {
            assert(self@.values[indices[j] as int].fits(self@.data_type));
        }
        Column { data_type: self.data_type.clone(), values }
    }

    /// `n` copies of the value at position `index`.
    pub fn replicate(&self, index: usize, n: usize) -> (r: Column)
        requires
            index < self@.values.len(),
        ensures
            r@ == (ColumnView { data_type: self@.data_type, values: Seq::new(n as nat, |k: int| self@.values[index as int]) }),
    {
        proof {
            use_type_invariant(self);
        }
        let mut values: Vec<DataValue> = Vec::new();
        let mut k: usize = 0;
        while k < n
            invariant
                k <= n,
                index < self.values.len(),
                values.len() == k,
                forall|j: int| 0 <= j < k ==> values[j]@ == self.values[index as int]@,
            decreases n - k,
        {
            values.push(self.values[index].clone());
            k += 1;
        }
        assert(values_view(values@) =~= Seq::new(n as nat, |k: int| self@.values[index as int]));
        assert(self@.values[index as int].fits(self@.data_type));
        Column { data_type: self.data_type.clone(), values }
    }

    /// The same values as a column of the type made nullable.
    pub fn to_nullable(&self) -> (r: Column)
        ensures
            r@ == (ColumnView { data_type: self@.data_type.wrap_nullable(), values: self@.values }),
    {
        proof {
            use_type_invariant(self);
        }
        let copy = self.clone();
        assert forall|j: int| 0 <= j < copy.values.len() implies (#[trigger] values_view(copy.values@)[j]).fits(
            self.data_type.wrap_nullable(),
        ) by {
            assert(self@.values[j].fits(self@.data_type));
            lemma_fits_nullable(self@.values[j], self@.data_type);
        }
        Column { data_type: self.data_type.to_nullable(), values: copy.values }
    }

    /// The values of `self` followed by those of `other`, which has the same
    /// type.
    pub fn append(self, other: &Column) -> (r: Column)
        requires
            other@.data_type == self@.data_type,
        ensures
            r@ == (ColumnView { data_type: self@.data_type, values: self@.values + other@.values }),
    {
        proof {
            use_type_invariant(&self);
            use_type_invariant(other);
        }
        let ghost first = self@.values;
        let mut values = self.values;
        let mut k: usize = 0;
        while k < other.values.len()
            invariant
                k <= other.values.len(),
                first == self@.values,
                values_view(values@) == first + other@.values.take(k as int),
            decreases other.values.len() - k,
        {
            let ghost before = values_view(values@);
            values.push(other.values[k].clone());
            assert(values_view(values@) =~= before.push(other@.values[k as int]));
            assert(other@.values.take(k + 1) =~= other@.values.take(k as int).push(other@.values[k as int]));
            assert(first + other@.values.take(k + 1) =~= (first + other@.values.take(k as int)).push(
                other@.values[k as int],
            ));
            k += 1;
        }
        assert(other@.values.take(k as int) =~= other@.values);
        assert forall|j: int| 0 <= j < values.len() implies (#[trigger] values_view(values@)[j]).fits(
            self.data_type,
        ) by {
            if j < first.len() {
                assert(self@.values[j].fits(self@.data_type));
            } else {
                assert(other@.values[j - first.len()].fits(other@.data_type));
            }
        }
        Column { data_type: self.data_type, values }
    }
}

impl Clone for Column {
    fn clone(&self) -> (r: Column)
        ensures
            r@ == self@,
    {
        proof {
            use_type_invariant(self);
        }
        let mut values: Vec<DataValue> = Vec::new();
        let mut k: usize = 0;
        while k < self.values.len()
            invariant
                k <= self.values.len(),
                values.len() == k,
                forall|j: int| 0 <= j < k ==> values[j]@ == self.values[j]@,
            decreases self.values.len() - k,
        {
            values.push(self.values[k].clone());
            k += 1;
        }
        assert(values_view(values@) =~= values_view(self.values@));
        assert forall|j: int| 0 <= j < values.len() implies (#[trigger] values_view(values@)[j]).fits(
            self.data_type,
        ) by {
            assert(self@.values[j].fits(self@.data_type));
        }
        Column { data_type: self.data_type.clone(), values }
    }
}

/// The views of a vector of columns, one by one.
pub open spec fn columns_view(v: Seq<Column>) -> Seq<ColumnView> {
    Seq::new(v.len(), |i: int| v[i]@)
}

/// A copy of a vector of columns.
pub fn clone_columns(v: &Vec<Column>) -> (r: Vec<Column>)
    ensures
        columns_view(r@) == columns_view(v@),
{
    let mut out: Vec<Column> = Vec::new();
    let mut i: usize = 0;
    while i < v.len()
        invariant
            i <= v.len(),
            out.len() == i,
            forall|j: int| 0 <= j < i ==> out[j]@ == v[j]@,
        decreases v.len() - i,
    {
        out.push(v[i].clone());
        i += 1;
    }
    assert(columns_view(out@) =~= columns_view(v@));
    out
}

} // verus!
