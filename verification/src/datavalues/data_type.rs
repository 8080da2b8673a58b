//! The types a column can have, and the rule that unifies two of them.

use crate::error::ErrorCode;
use crate::error::ErrorKind;
use vstd::prelude::*;

verus! {

/// The type of the values of a column.
#[derive(Debug, PartialEq, Eq)]
pub enum DataType {
    /// The type of the literal `NULL`.
    Null,
    Boolean,
    Int8,
    Int16,
    Int32,
    Int64,
    UInt8,
    UInt16,
    UInt32,
    UInt64,
    /// A byte string of any length.
    String,
    /// Every value of the inner type, and `NULL`.
    Nullable(Box<DataType>),
}

impl DataType {
    pub open spec fn is_nullable(self) -> bool {
        self is Nullable
    }

    /// The type with one layer of `Nullable` taken off.
    pub open spec fn remove_nullable(self) -> DataType {
        match self {
            DataType::Nullable(inner) => *inner,
            t => t,
        }
    }

    /// The type with `NULL` added to its values; a type that already holds
    /// `NULL` is unchanged.
    pub open spec fn wrap_nullable(self) -> DataType {
        match self {
            DataType::Nullable(_) => self,
            DataType::Null => self,
            t => DataType::Nullable(Box::new(t)),
        }
    }

    pub open spec fn is_signed_integer(self) -> bool {
        self is Int8 || self is Int16 || self is Int32 || self is Int64
    }

    pub open spec fn is_unsigned_integer(self) -> bool {
        self is UInt8 || self is UInt16 || self is UInt32 || self is UInt64
    }

    pub open spec fn is_integer(self) -> bool {
        self.is_signed_integer() || self.is_unsigned_integer()
    }

    /// The number of bytes of an integer type, 0 for every other type.
    pub open spec fn byte_size(self) -> nat {
        match self {
            DataType::Int8 | DataType::UInt8 => 1,
            DataType::Int16 | DataType::UInt16 => 2,
            DataType::Int32 | DataType::UInt32 => 4,
            DataType::Int64 | DataType::UInt64 => 8,
            _ => 0,
        }
    }

    /// The signed integer type of `size` bytes.
    pub open spec fn signed_of_size(size: nat) -> DataType {
        if size <= 1 {
            DataType::Int8
        } else if size <= 2 {
            DataType::Int16
        } else if size <= 4 {
            DataType::Int32
        } else {
            DataType::Int64
        }
    }

    /// The unsigned integer type of `size` bytes.
    pub open spec fn unsigned_of_size(size: nat) -> DataType {
        if size <= 1 {
            DataType::UInt8
        } else if size <= 2 {
            DataType::UInt16
        } else if size <= 4 {
            DataType::UInt32
        } else {
            DataType::UInt64
        }
    }

    /// The least integer type that holds every value of the integer types
    /// `a` and `b`. Two types of one signedness give the wider one. A signed
    /// and an unsigned type give a signed type wide enough for both, at most
    /// `Int64`.
    pub open spec fn merge_integers(a: DataType, b: DataType) -> DataType {
        if a.is_unsigned_integer() && b.is_unsigned_integer() {
            DataType::unsigned_of_size(if a.byte_size() >= b.byte_size() { a.byte_size() } else { b.byte_size() })
        } else if a.is_signed_integer() && b.is_signed_integer() {
            DataType::signed_of_size(if a.byte_size() >= b.byte_size() { a.byte_size() } else { b.byte_size() })
        } else {
            let s = if a.is_signed_integer() { a.byte_size() } else { b.byte_size() };
            let u = if a.is_signed_integer() { b.byte_size() } else { a.byte_size() };
            DataType::signed_of_size(if s >= 2 * u { s } else { 2 * u })
        }
    }

    /// The common super type of two types that hold no `NULL`, if there is
    /// one: equal types give themselves, two integer types give
    /// [`DataType::merge_integers`], anything else gives `None`.
    pub open spec fn merge_plain(a: DataType, b: DataType) -> Option<DataType> {
        if a == b {
            Some(a)
        } else if a.is_integer() && b.is_integer() {
            Some(DataType::merge_integers(a, b))
        } else {
            None
        }
    }

    /// The common super type of `a` and `b`, if there is one.
    ///
    /// `Null` merged with a type gives that type made nullable. Where either
    /// side is nullable the inner types are merged and the result is
    /// nullable.
    pub open spec fn merge_spec(a: DataType, b: DataType) -> Option<DataType> {
        if a is Null {
            Some(b.wrap_nullable())
        } else if b is Null {
            Some(a.wrap_nullable())
        } else if a.is_nullable() || b.is_nullable() {
            let x = a.remove_nullable();
            let y = b.remove_nullable();
            if x is Null || x.is_nullable() || y is Null || y.is_nullable() {
                if x == y {
                    Some(a.wrap_nullable())
                } else {
                    None
                }
            } else {
                match DataType::merge_plain(x, y) {
                    Some(t) => Some(DataType::Nullable(Box::new(t))),
                    None => None,
                }
            }
        } else {
            DataType::merge_plain(a, b)
        }
    }

    /// The number of bytes that a value of this type takes in a fixed-width
    /// key: the size of an integer type, one byte more where the type is
    /// nullable. `None` for a type whose values have no fixed width.
    pub open spec fn fixed_key_size(self) -> Option<nat> {
        let inner = self.remove_nullable();
        if inner.is_integer() {
            Some(inner.byte_size() + if self.is_nullable() { 1nat } else { 0nat })
        } else {
            None
        }
    }

    pub fn nullable(&self) -> (r: bool)
        ensures
            r == self.is_nullable(),
    {
        match self {
            DataType::Nullable(_) => true,
            _ => false,
        }
    }

    pub fn is_null(&self) -> (r: bool)
        ensures
            r == (*self is Null),
    {
        match self {
            DataType::Null => true,
            _ => false,
        }
    }

    pub fn signed_integer(&self) -> (r: bool)
        ensures
            r == self.is_signed_integer(),
    {
        match self {
            DataType::Int8 | DataType::Int16 | DataType::Int32 | DataType::Int64 => true,
            _ => false,
        }
    }

    pub fn unsigned_integer(&self) -> (r: bool)
        ensures
            r == self.is_unsigned_integer(),
    {
        match self {
            DataType::UInt8 | DataType::UInt16 | DataType::UInt32 | DataType::UInt64 => true,
            _ => false,
        }
    }

    pub fn integer(&self) -> (r: bool)
        ensures
            r == self.is_integer(),
    {
        self.signed_integer() || self.unsigned_integer()
    }

    pub fn numeric_byte_size(&self) -> (r: usize)
        ensures
            r == self.byte_size(),
    {
        match self {
            DataType::Int8 | DataType::UInt8 => 1,
            DataType::Int16 | DataType::UInt16 => 2,
            DataType::Int32 | DataType::UInt32 => 4,
            DataType::Int64 | DataType::UInt64 => 8,
            _ => 0,
        }
    }

    /// Whether the two types are the same type.
    pub fn same(&self, other: &DataType) -> (r: bool)
        ensures
            r == (*self == *other),
        decreases self,
    {
        match (self, other) {
            (DataType::Null, DataType::Null) => true,
            (DataType::Boolean, DataType::Boolean) => true,
            (DataType::Int8, DataType::Int8) => true,
            (DataType::Int16, DataType::Int16) => true,
            (DataType::Int32, DataType::Int32) => true,
            (DataType::Int64, DataType::Int64) => true,
            (DataType::UInt8, DataType::UInt8) => true,
            (DataType::UInt16, DataType::UInt16) => true,
            (DataType::UInt32, DataType::UInt32) => true,
            (DataType::UInt64, DataType::UInt64) => true,
            (DataType::String, DataType::String) => true,
            (DataType::Nullable(a), DataType::Nullable(b)) => a.same(b),
            _ => false,
        }
    }

    /// The type without its outer `Nullable`.
    pub fn inner(&self) -> (r: &DataType)
        ensures
            *r == self.remove_nullable(),
    {
        match self {
            DataType::Nullable(inner) => inner,
            _ => self,
        }
    }

    /// The type made nullable.
    pub fn to_nullable(&self) -> (r: DataType)
        ensures
            r == self.wrap_nullable(),
    {
        match self {
            DataType::Nullable(_) => self.clone(),
            DataType::Null => DataType::Null,
            _ => DataType::Nullable(Box::new(self.clone())),
        }
    }

    fn signed_with_size(size: usize) -> (r: DataType)
        ensures
            r == DataType::signed_of_size(size as nat),
    {
        if size <= 1 {
            DataType::Int8
        } else if size <= 2 {
            DataType::Int16
        } else if size <= 4 {
            DataType::Int32
        } else {
            DataType::Int64
        }
    }

    fn unsigned_with_size(size: usize) -> (r: DataType)
        ensures
            r == DataType::unsigned_of_size(size as nat),
    {
        if size <= 1 {
            DataType::UInt8
        } else if size <= 2 {
            DataType::UInt16
        } else if size <= 4 {
            DataType::UInt32
        } else {
            DataType::UInt64
        }
    }

    fn merge_plain_types(a: &DataType, b: &DataType) -> (r: Option<DataType>)
        ensures
            r == DataType::merge_plain(*a, *b),
    {
        if a.same(b) {
            Some(a.clone())
        } else if a.integer() && b.integer() {
            let sa: usize = a.numeric_byte_size();
            let sb: usize = b.numeric_byte_size();
            if a.unsigned_integer() && b.unsigned_integer() {
                Some(DataType::unsigned_with_size(if sa >= sb { sa } else { sb }))
            } else if a.signed_integer() && b.signed_integer() {
                Some(DataType::signed_with_size(if sa >= sb { sa } else { sb }))
            } else {
                let s: usize = if a.signed_integer() { sa } else { sb };
                let u: usize = if a.signed_integer() { sb } else { sa };
                Some(DataType::signed_with_size(if s >= 2 * u { s } else { 2 * u }))
            }
        } else {
            None
        }
    }

    /// The width of this type in a fixed-width key, if it has one.
    pub fn key_size(&self) -> (r: Option<usize>)
        ensures
            r.is_some() == self.fixed_key_size().is_some(),
            r matches Some(n) ==> n == self.fixed_key_size().unwrap() && 1 <= n <= 9,
    {
        let inner = self.inner();
        if inner.integer() {
            let extra: usize = if self.nullable() { 1 } else { 0 };
            Some(inner.numeric_byte_size() + extra)
        } else {
            None
        }
    }
}

impl Clone for DataType {
    fn clone(&self) -> (r: DataType)
        ensures
            r == *self,
        decreases self,
    {
        match self {
            DataType::Null => DataType::Null,
            DataType::Boolean => DataType::Boolean,
            DataType::Int8 => DataType::Int8,
            DataType::Int16 => DataType::Int16,
            DataType::Int32 => DataType::Int32,
            DataType::Int64 => DataType::Int64,
            DataType::UInt8 => DataType::UInt8,
            DataType::UInt16 => DataType::UInt16,
            DataType::UInt32 => DataType::UInt32,
            DataType::UInt64 => DataType::UInt64,
            DataType::String => DataType::String,
            DataType::Nullable(inner) => DataType::Nullable(Box::new((**inner).clone())),
        }
    }
}

/// Unifies two types into their common super type.
///
/// Returns the type that [`DataType::merge_spec`] gives, and a
/// `BadDataValueType` error exactly where it gives none.
pub fn merge_types(lhs: &DataType, rhs: &DataType) -> (r: Result<DataType, ErrorCode>)
    ensures
        match DataType::merge_spec(*lhs, *rhs) {
            Some(t) => r == Ok::<DataType, ErrorCode>(t),
            None => r is Err && r->Err_0.kind == ErrorKind::BadDataValueType,
        },
{
    let merged = if lhs.is_null() {
        Some(rhs.to_nullable())
    } else if rhs.is_null() {
        Some(lhs.to_nullable())
    } else if lhs.nullable() || rhs.nullable() {
        let x = lhs.inner();
        let y = rhs.inner();
        if x.is_null() || x.nullable() || y.is_null() || y.nullable() {
            if x.same(y) {
                Some(lhs.to_nullable())
            } else {
                None
            }
        } else {
            match DataType::merge_plain_types(x, y) {
                Some(t) => Some(DataType::Nullable(Box::new(t))),
                None => None,
            }
        }
    } else {
        DataType::merge_plain_types(lhs, rhs)
    };
    match merged {
        Some(t) => Ok(t),
        None => Err(ErrorCode::create(ErrorKind::BadDataValueType, "Can't merge types")),
    }
}

} // verus!
