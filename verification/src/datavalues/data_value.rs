//! A single value of a column.

use crate::datavalues::data_type::DataType;
use vstd::prelude::*;

verus! {

/// One value: `NULL`, a boolean, an integer or a byte string.
#[derive(Debug, PartialEq, Eq)]
pub enum DataValue {
    Null,
    Boolean(bool),
    Int64(i64),
    UInt64(u64),
    String(Vec<u8>),
}

/// What a [`DataValue`] stands for.
pub ghost enum DataValueView {
    Null,
    Boolean(bool),
    Int64(i64),
    UInt64(u64),
    String(Seq<u8>),
}

impl View for DataValue {
    type V = DataValueView;

    open spec fn view(&self) -> DataValueView {
        match self {
            DataValue::Null => DataValueView::Null,
            DataValue::Boolean(b) => DataValueView::Boolean(*b),
            DataValue::Int64(v) => DataValueView::Int64(*v),
            DataValue::UInt64(v) => DataValueView::UInt64(*v),
            DataValue::String(s) => DataValueView::String(s@),
        }
    }
}

/// The least value of the signed integer type of `size` bytes.
pub open spec fn least_signed(size: nat) -> int {
    if size == 1 {
        -0x80
    } else if size == 2 {
        -0x8000
    } else if size == 4 {
        -0x8000_0000
    } else {
        -0x8000_0000_0000_0000
    }
}

/// The number of values of an integer type of `size` bytes.
pub open spec fn integer_span(size: nat) -> int {
    if size == 1 {
        0x100
    } else if size == 2 {
        0x1_0000
    } else if size == 4 {
        0x1_0000_0000
    } else {
        0x1_0000_0000_0000_0000
    }
}

impl DataValueView {
    /// Whether the value is one of the values of `data_type`.
    ///
    /// A signed type of `n` bytes holds the `Int64` values from `-2^(8n-1)`
    /// to `2^(8n-1) - 1`, an unsigned one the `UInt64` values below `2^(8n)`.
    /// `NULL` belongs to `Null` and to every nullable type. A byte string is
    /// at most `2^64 - 1` bytes long.
    pub open spec fn fits(self, data_type: DataType) -> bool
        decreases data_type,
    {
        match data_type {
            DataType::Null => self is Null,
            DataType::Nullable(inner) => self is Null || self.fits(*inner),
            DataType::Boolean => self is Boolean,
            DataType::String => self matches DataValueView::String(s) && s.len() <= 0xffff_ffff_ffff_ffff,
            DataType::Int8 | DataType::Int16 | DataType::Int32 | DataType::Int64 => {
                &&& self matches DataValueView::Int64(v)
                &&& least_signed(data_type.byte_size()) <= v < -least_signed(data_type.byte_size())
            },
            DataType::UInt8 | DataType::UInt16 | DataType::UInt32 | DataType::UInt64 => {
                &&& self matches DataValueView::UInt64(v)
                &&& v < integer_span(data_type.byte_size())
            },
        }
    }
}

impl DataValue {
    pub fn is_null(&self) -> (r: bool)
        ensures
            r == (self@ is Null),
    {
        match self {
            DataValue::Null => true,
            _ => false,
        }
    }

    /// Whether the two values are the same value.
    pub fn same(&self, other: &DataValue) -> (r: bool)
        ensures
            r == (self@ == other@),
    {
        match (self, other) {
            (DataValue::Null, DataValue::Null) => true,
            (DataValue::Boolean(a), DataValue::Boolean(b)) => *a == *b,
            (DataValue::Int64(a), DataValue::Int64(b)) => *a == *b,
            (DataValue::UInt64(a), DataValue::UInt64(b)) => *a == *b,
            (DataValue::String(a), DataValue::String(b)) => {
                let r = same_bytes(a, b);
                r
            },
            _ => false,
        }
    }

    /// Whether the value is one of the values of `data_type`.
    pub fn has_type(&self, data_type: &DataType) -> (r: bool)
        ensures
            r == self@.fits(*data_type),
        decreases data_type,
    {
        match data_type {
            DataType::Null => self.is_null(),
            DataType::Nullable(inner) => self.is_null() || self.has_type(inner),
            DataType::Boolean => match self {
                DataValue::Boolean(_) => true,
                _ => false,
            },
            DataType::String => match self {
                DataValue::String(s) => {
                    let n: usize = s.len();
                    assert(n <= 0xffff_ffff_ffff_ffff);
                    true
                },
                _ => false,
            },
            DataType::Int8 => match self {
                DataValue::Int64(v) => -0x80 <= *v && *v < 0x80,
                _ => false,
            },
            DataType::Int16 => match self {
                DataValue::Int64(v) => -0x8000 <= *v && *v < 0x8000,
                _ => false,
            },
            DataType::Int32 => match self {
                DataValue::Int64(v) => -0x8000_0000 <= *v && *v < 0x8000_0000,
                _ => false,
            },
            DataType::Int64 => match self {
                DataValue::Int64(_) => true,
                _ => false,
            },
            DataType::UInt8 => match self {
                DataValue::UInt64(v) => *v < 0x100,
                _ => false,
            },
            DataType::UInt16 => match self {
                DataValue::UInt64(v) => *v < 0x1_0000,
                _ => false,
            },
            DataType::UInt32 => match self {
                DataValue::UInt64(v) => *v < 0x1_0000_0000,
                _ => false,
            },
            DataType::UInt64 => match self {
                DataValue::UInt64(_) => true,
                _ => false,
            },
        }
    }
}

impl Clone for DataValue {
    fn clone(&self) -> (r: DataValue)
        ensures
            r@ == self@,
    {
        match self {
            DataValue::Null => DataValue::Null,
            DataValue::Boolean(b) => DataValue::Boolean(*b),
            DataValue::Int64(v) => DataValue::Int64(*v),
            DataValue::UInt64(v) => DataValue::UInt64(*v),
            DataValue::String(s) => DataValue::String(s.clone()),
        }
    }
}

/// Whether two byte strings hold the same bytes.
pub fn same_bytes(a: &Vec<u8>, b: &Vec<u8>) -> (r: bool)
    ensures
        r == (a@ == b@),
{
    if a.len() != b.len() {
        return false;
    }
    let mut i: usize = 0;
    while i < a.len()
        invariant
            i <= a.len(),
            a.len() == b.len(),
            forall|j: int| 0 <= j < i ==> a[j] == b[j],
        decreases a.len() - i,
    {
        if a[i] != b[i] {
            return false;
        }
        i += 1;
    }
    assert(a@ =~= b@);
    true
}

} // verus!
