//! Writing the values of integer columns as text and as JSON.

use crate::datavalues::column::Column;
use crate::datavalues::data_type::DataType;
use crate::datavalues::data_value::DataValue;
use crate::datavalues::data_value::DataValueView;
use crate::error::ErrorCode;
use crate::error::ErrorKind;
use crate::planner::names::decimal_digits;
use crate::planner::names::decimal_text;
use core::marker::PhantomData;
use vstd::prelude::*;
use vstd::string::StringExecFns;

verus! {

#[verifier::external_type_specification]
#[verifier::external_body]
pub struct ExJsonValue(serde_json::Value);

#[verifier::external_type_specification]
#[verifier::external_body]
pub struct ExJsonError(serde_json::Error);

/// Calls `serde_json::to_value` on an integer. The call succeeds for every
/// number that fits in 64 bits, signed or unsigned, and the value that it
/// gives is a JSON number; only the success is claimed here.
#[verifier::external_body]
fn to_json_value(x: i128) -> (r: Result<serde_json::Value, serde_json::Error>)
    ensures
        -0x8000_0000_0000_0000 <= x <= 0xffff_ffff_ffff_ffff ==> r is Ok,
{
    serde_json::to_value(x)
}

/// An integer type of which columns are serialized.
pub trait PrimitiveType {
    /// The data type of the columns.
    spec fn column_type() -> DataType;

    fn data_type() -> (t: DataType)
        ensures
            t == Self::column_type(),
            t.is_integer(),
    ;
}

impl PrimitiveType for i8 {
    open spec fn column_type() -> DataType {
        DataType::Int8
    }

    fn data_type() -> (t: DataType) {
        DataType::Int8
    }
}

impl PrimitiveType for i16 {
    open spec fn column_type() -> DataType {
        DataType::Int16
    }

    fn data_type() -> (t: DataType) {
        DataType::Int16
    }
}

impl PrimitiveType for i32 {
    open spec fn column_type() -> DataType {
        DataType::Int32
    }

    fn data_type() -> (t: DataType) {
        DataType::Int32
    }
}

impl PrimitiveType for i64 {
    open spec fn column_type() -> DataType {
        DataType::Int64
    }

    fn data_type() -> (t: DataType) {
        DataType::Int64
    }
}

impl PrimitiveType for u8 {
    open spec fn column_type() -> DataType {
        DataType::UInt8
    }

    fn data_type() -> (t: DataType) {
        DataType::UInt8
    }
}

impl PrimitiveType for u16 {
    open spec fn column_type() -> DataType {
        DataType::UInt16
    }

    fn data_type() -> (t: DataType) {
        DataType::UInt16
    }
}

impl PrimitiveType for u32 {
    open spec fn column_type() -> DataType {
        DataType::UInt32
    }

    fn data_type() -> (t: DataType) {
        DataType::UInt32
    }
}

impl PrimitiveType for u64 {
    open spec fn column_type() -> DataType {
        DataType::UInt64
    }

    fn data_type() -> (t: DataType) {
        DataType::UInt64
    }
}

/// The integer that a value holds, 0 for a value that is no integer.
pub open spec fn integer_of(v: DataValueView) -> int {
    match v {
        DataValueView::Int64(i) => i as int,
        DataValueView::UInt64(u) => u as int,
        _ => 0,
    }
}

/// The decimal text of an integer: its digits, after a minus sign where it
/// is negative.
pub open spec fn integer_text(i: int) -> Seq<char> {
    if i < 0 {
        seq!['-'] + decimal_digits((-i) as nat)
    } else {
        decimal_digits(i as nat)
    }
}

/// Whether a value is an integer.
pub open spec fn is_integer_value(v: DataValueView) -> bool {
    v is Int64 || v is UInt64
}

/// The serializer of the columns of the integer type `T`.
pub struct NumberSerializer<T: PrimitiveType> {
    t: PhantomData<T>,
}

impl<T: PrimitiveType> Default for NumberSerializer<T> {
    fn default() -> (r: Self) {
        NumberSerializer { t: PhantomData }
    }
}

fn number_text(value: &DataValue) -> (r: Option<String>)
    ensures
        is_integer_value(value@) ==> r is Some && r->Some_0@ == integer_text(integer_of(value@)),
        !is_integer_value(value@) ==> r is None,
{
    match value {
        DataValue::UInt64(u) => Some(decimal_text(*u)),
        DataValue::Int64(i) => {
            if *i >= 0 {
                Some(decimal_text(*i as u64))
            } else {
                proof {
                    reveal_strlit("-");
                }
                let magnitude: u64 = (0 - (*i as i128)) as u64;
                let mut s = String::from_str("-");
                let digits = decimal_text(magnitude);
                s.append(digits.as_str());
                assert(s@ =~= integer_text(*i as int));
                Some(s)
            }
        },
        _ => None,
    }
}

impl<T: PrimitiveType> NumberSerializer<T> {
    /// The decimal text of an integer value, or a `BadDataValueType` error
    /// for a value that is no integer.
    pub fn serialize_value(&self, value: &DataValue) -> (r: Result<String, ErrorCode>)
        ensures
            is_integer_value(value@) ==> r is Ok && r->Ok_0@ == integer_text(integer_of(value@)),
            !is_integer_value(value@) ==> r is Err && r->Err_0.kind == ErrorKind::BadDataValueType,
    {
        match number_text(value) {
            Some(s) => Ok(s),
            None => Err(ErrorCode::create(ErrorKind::BadDataValueType, "The value is not a number")),
        }
    }

    /// The decimal text of each value of a column of the type `T`, or a
    /// `BadDataValueType` error for a column of another type.
    pub fn serialize_column(&self, column: &Column) -> (r: Result<Vec<String>, ErrorCode>)
        ensures
            column@.data_type == T::column_type() ==> {
                &&& r is Ok
                &&& r->Ok_0.len() == column@.values.len()
                &&& forall|i: int|
                    0 <= i < column@.values.len() ==> (#[trigger] r->Ok_0[i])@ == integer_text(
                        integer_of(column@.values[i]),
                    )
            },
            column@.data_type != T::column_type() ==> r is Err && r->Err_0.kind == ErrorKind::BadDataValueType,
    {
        let expected = T::data_type();
        if !column.data_type().same(&expected) {
            return Err(ErrorCode::create(ErrorKind::BadDataValueType, "The column is not of the number type"));
        }
        let n = column.len();
        let mut out: Vec<String> = Vec::new();
        let mut i: usize = 0;
        while i < n
            invariant
                i <= n,
                n == column@.values.len(),
                column@.wf(),
                column@.data_type.is_integer(),
                out.len() == i,
                forall|j: int| 0 <= j < i ==> (#[trigger] out[j])@ == integer_text(integer_of(column@.values[j])),
            decreases n - i,
        {
            let value = column.get(i);
            match number_text(value) {
                Some(s) => {
                    out.push(s);
                },
                None => {
                    return Err(ErrorCode::create(ErrorKind::BadDataValueType, "The value is not a number"));
                },
            }
            i += 1;
        }
        Ok(out)
    }

    /// The JSON number of each value of a column of the type `T`, or a
    /// `BadDataValueType` error for a column of another type.
    pub fn serialize_json(&self, column: &Column) -> (r: Result<Vec<serde_json::Value>, ErrorCode>)
        ensures
            column@.data_type == T::column_type() ==> r is Ok && r->Ok_0.len() == column@.values.len(),
            column@.data_type != T::column_type() ==> r is Err && r->Err_0.kind == ErrorKind::BadDataValueType,
    {
        let expected = T::data_type();
        if !column.data_type().same(&expected) {
            return Err(ErrorCode::create(ErrorKind::BadDataValueType, "The column is not of the number type"));
        }
        let n = column.len();
        let mut out: Vec<serde_json::Value> = Vec::new();
        let mut i: usize = 0;
        while i < n
            invariant
                i <= n,
                n == column@.values.len(),
                column@.wf(),
                column@.data_type.is_integer(),
                out.len() == i,
            decreases n - i,
        {
            let number: i128 = match column.get(i) {
                DataValue::Int64(v) => *v as i128,
                DataValue::UInt64(v) => *v as i128,
                _ => 0,
            };
            match to_json_value(number) {
                Ok(value) => {
                    out.push(value);
                },
                Err(_) => {
                    return Err(ErrorCode::create(ErrorKind::BadDataValueType, "The value is not a number"));
                },
            }
            i += 1;
        }
        Ok(out)
    }
}

} // verus!
