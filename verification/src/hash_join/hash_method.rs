//! Choosing the encoding of the keys of a join and building the keys of the
//! rows of a block.

use crate::datavalues::column::columns_view;
use crate::datavalues::column::Column;
use crate::datavalues::column::ColumnView;
use crate::datavalues::data_type::DataType;
use crate::datavalues::data_value::DataValue;
use crate::datavalues::data_value::DataValueView;
use crate::error::ErrorCode;
use crate::error::ErrorKind;
use crate::hash_join::keys::choose_method;
use crate::hash_join::keys::fixed_row_bytes;
use crate::hash_join::keys::fixed_value_bytes;
use crate::hash_join::keys::integer_image;
use crate::hash_join::keys::le_bytes;
use crate::hash_join::keys::lemma_fixed_row_len;
use crate::hash_join::keys::method_fits;
use crate::hash_join::keys::row_has_null;
use crate::hash_join::keys::row_key;
use crate::hash_join::keys::serialized_row;
use crate::hash_join::keys::serialized_value;
use crate::hash_join::keys::total_key_size;
use crate::hash_join::keys::HashMethodKind;
use vstd::prelude::*;

verus! {

/// The types of a sequence of columns, one by one.
pub open spec fn column_types(cols: Seq<ColumnView>) -> Seq<DataType> {
    Seq::new(cols.len(), |c: int| cols[c].data_type)
}

/// The values at position `r` of a sequence of columns, one by one.
pub open spec fn key_row(cols: Seq<ColumnView>, r: int) -> Seq<DataValueView> {
    Seq::new(cols.len(), |c: int| cols[c].values[r])
}

/// Whether every column of `cols` holds `rows` values, each of the column's
/// type.
pub open spec fn columns_have_rows(cols: Seq<ColumnView>, rows: nat) -> bool {
    forall|c: int| 0 <= c < cols.len() ==> (#[trigger] cols[c]).values.len() == rows && cols[c].wf()
}

/// The size of keys of the given types at fixed width, if they have one.
pub fn fixed_total(types: &Vec<DataType>) -> (r: Option<u128>)
    ensures
        r is Some == total_key_size(types@) is Some,
        r matches Some(n) ==> n == total_key_size(types@).unwrap(),
{
    let mut total: u128 = 0;
    let mut c: usize = 0;
    assert(types@.take(0) =~= Seq::<DataType>::empty());
    while c < types.len()
        invariant
            c <= types.len(),
            total_key_size(types@.take(c as int)) == Some(total as nat),
            total <= 9 * c,
        decreases types.len() - c,
    {
        proof {
            assert(types@.take(c + 1).drop_last() =~= types@.take(c as int));
            assert(types@.take(c + 1).last() == types@[c as int]);
        }
        match types[c].key_size() {
            Some(n) => {
                total = total + n as u128;
            },
            None => {
                proof {
                    lemma_total_none(types@, c + 1);
                }
                return None;
            },
        }
        c += 1;
    }
    assert(types@.take(c as int) =~= types@);
    Some(total)
}

/// Where a prefix of the types has no fixed size, the whole has none.
proof fn lemma_total_none(types: Seq<DataType>, n: int)
    requires
        0 <= n <= types.len(),
        total_key_size(types.take(n)) is None,
    ensures
        total_key_size(types) is None,
    decreases types.len() - n,
{
    if n < types.len() {
        assert(types.take(n + 1).drop_last() =~= types.take(n));
        lemma_total_none(types, n + 1);
    } else {
        assert(types.take(n) =~= types);
    }
}

/// Chooses the encoding for keys of the given types.
pub fn choose_hash_method_with_types(hash_key_types: &Vec<DataType>) -> (r: HashMethodKind)
    ensures
        r == choose_method(hash_key_types@),
        method_fits(r, hash_key_types@),
{
    match fixed_total(hash_key_types) {
        None => HashMethodKind::Serializer,
        Some(n) => if n == 0 {
            HashMethodKind::Serializer
        } else if n <= 1 {
            HashMethodKind::KeysU8
        } else if n <= 2 {
            HashMethodKind::KeysU16
        } else if n <= 4 {
            HashMethodKind::KeysU32
        } else if n <= 8 {
            HashMethodKind::KeysU64
        } else if n <= 16 {
            HashMethodKind::KeysU128
        } else if n <= 32 {
            HashMethodKind::KeysU256
        } else if n <= 64 {
            HashMethodKind::KeysU512
        } else {
            HashMethodKind::Serializer
        },
    }
}

/// Adds the `size` low bytes of `n` to `out`, least significant first.
fn push_le_bytes(out: &mut Vec<u8>, n: u64, size: usize)
    ensures
        final(out)@ == old(out)@ + le_bytes(n as nat, size as nat),
{
    let mut rest: u64 = n;
    let mut j: usize = 0;
    assert(out@ =~= old(out)@ + Seq::<u8>::empty());
    assert(le_bytes(n as nat, size as nat) =~= Seq::<u8>::empty() + le_bytes(n as nat, size as nat));
    let ghost mut done: Seq<u8> = Seq::empty();
    while j < size
        invariant
            j <= size,
            out@ == old(out)@ + done,
            le_bytes(n as nat, size as nat) == done + le_bytes(rest as nat, (size - j) as nat),
        decreases size - j,
    {
        let b: u8 = (rest % 256) as u8;
        proof {
            let tail = le_bytes((rest / 256) as nat, (size - j - 1) as nat);
            assert(le_bytes(rest as nat, (size - j) as nat) == seq![b] + tail);
            assert(done + (seq![b] + tail) =~= done.push(b) + tail);
            assert(old(out)@ + done.push(b) =~= (old(out)@ + done).push(b));
            done = done.push(b);
        }
        out.push(b);
        rest = rest / 256;
        j += 1;
    }
    assert(done + le_bytes(rest as nat, 0) =~= done);
}

/// The unsigned number that stands for a value of the integer type `t`.
fn image_of(v: &DataValue, t: &DataType) -> (r: u64)
    requires
        t.is_integer(),
        v@.fits(*t),
    ensures
        r == integer_image(v@, t.byte_size()),
{
    match v {
        DataValue::UInt64(u) => *u,
        DataValue::Int64(i) => {
            if *i >= 0 {
                *i as u64
            } else {
                let span: i128 = match t {
                    DataType::Int8 => 0x100,
                    DataType::Int16 => 0x1_0000,
                    DataType::Int32 => 0x1_0000_0000,
                    _ => 0x1_0000_0000_0000_0000,
                };
                (*i as i128 + span) as u64
            }
        },
        _ => 0,
    }
}

/// Adds the bytes of a value of the fixed-width type `t` to `out`.
fn push_fixed_value(out: &mut Vec<u8>, v: &DataValue, t: &DataType)
    requires
        t.fixed_key_size() is Some,
        v@.fits(*t),
    ensures
        final(out)@ == old(out)@ + fixed_value_bytes(v@, *t),
{
    proof {
        reveal_with_fuel(DataValueView::fits, 2);
    }
    let inner = t.inner();
    let size = inner.numeric_byte_size();
    if t.nullable() {
        let f: u8 = if v.is_null() { 1 } else { 0 };
        out.push(f);
    }
    let ghost mid = out@;
    if v.is_null() {
        push_le_bytes(out, 0, size);
    } else {
        push_le_bytes(out, image_of(v, inner), size);
    }
    proof {
        let payload = if v@ is Null {
            le_bytes(0, inner.byte_size())
        } else {
            le_bytes(integer_image(v@, inner.byte_size()), inner.byte_size())
        };
        if t.is_nullable() {
            let f = if v@ is Null { 1u8 } else { 0u8 };
            assert(mid =~= old(out)@ + seq![f]);
            assert((old(out)@ + seq![f]) + payload =~= old(out)@ + (seq![f] + payload));
        }
    }
}

/// Adds the serialized bytes of a value of type `t` to `out`.
fn push_serialized_value(out: &mut Vec<u8>, v: &DataValue, t: &DataType)
    requires
        v@.fits(*t),
    ensures
        final(out)@ == old(out)@ + serialized_value(v@, *t),
    decreases t,
{
    match t {
        DataType::Null => {
            out.push(1);
            assert(out@ =~= old(out)@ + seq![1u8]);
        },
        DataType::Nullable(inner) => {
            if v.is_null() {
                out.push(1);
                assert(out@ =~= old(out)@ + seq![1u8]);
            } else {
                out.push(0);
                let ghost mid = out@;
                push_serialized_value(out, v, inner);
                assert(mid =~= old(out)@ + seq![0u8]);
                assert((old(out)@ + seq![0u8]) + serialized_value(v@, **inner) =~= old(out)@ + (seq![0u8]
                    + serialized_value(v@, **inner)));
            }
        },
        DataType::Boolean => {
            let b: u8 = match v {
                DataValue::Boolean(true) => 1,
                _ => 0,
            };
            out.push(b);
            assert(out@ =~= old(out)@ + seq![b]);
        },
        DataType::String => {
            match v {
                DataValue::String(s) => {
                    push_le_bytes(out, s.len() as u64, 8);
                    let ghost mid = out@;
                    let mut k: usize = 0;
                    while k < s.len()
                        invariant
                            k <= s.len(),
                            out@ == mid + s@.take(k as int),
                        decreases s.len() - k,
                    {
                        out.push(s[k]);
                        assert(s@.take(k + 1) =~= s@.take(k as int).push(s@[k as int]));
                        assert(mid + s@.take(k + 1) =~= (mid + s@.take(k as int)).push(s@[k as int]));
                        k += 1;
                    }
                    assert(s@.take(k as int) =~= s@);
                    assert((old(out)@ + le_bytes(s@.len(), 8)) + s@ =~= old(out)@ + (le_bytes(s@.len(), 8) + s@));
                },
                _ => {
                    assert(out@ =~= old(out)@ + Seq::<u8>::empty());
                },
            }
        },
        _ => {
            push_le_bytes(out, image_of(v, t), t.numeric_byte_size());
        },
    }
}

/// Whether a row of the columns holds a `NULL`.
pub fn row_is_null(columns: &Vec<Column>, row: usize) -> (r: bool)
    requires
        forall|c: int| 0 <= c < columns.len() ==> row < (#[trigger] columns[c])@.values.len(),
    ensures
        r == row_has_null(key_row(columns_view(columns@), row as int)),
{
    let ghost values = key_row(columns_view(columns@), row as int);
    let mut c: usize = 0;
    while c < columns.len()
        invariant
            c <= columns.len(),
            values == key_row(columns_view(columns@), row as int),
            forall|j: int| 0 <= j < columns.len() ==> row < (#[trigger] columns[j])@.values.len(),
            forall|j: int| 0 <= j < c ==> !(#[trigger] values[j] is Null),
        decreases columns.len() - c,
    {
        assert(values[c as int] == columns[c as int]@.values[row as int]);
        if columns[c].get(row).is_null() {
            return true;
        }
        c += 1;
    }
    false
}

/// The key of one row of the columns under the encoding `kind`.
fn build_key(kind: HashMethodKind, columns: &Vec<Column>, row: usize) -> (key: Vec<u8>)
    requires
        method_fits(kind, column_types(columns_view(columns@))),
        columns_have_rows(columns_view(columns@), (row + 1) as nat) || forall|c: int|
            0 <= c < columns.len() ==> row < (#[trigger] columns[c])@.values.len() && columns[c]@.wf(),
    ensures
        key@ == row_key(kind, column_types(columns_view(columns@)), key_row(columns_view(columns@), row as int)),
{
    let ghost cols = columns_view(columns@);
    let ghost types = column_types(cols);
    let ghost values = key_row(cols, row as int);
    assert forall|c: int| 0 <= c < columns.len() implies row < (#[trigger] columns[c])@.values.len()
        && columns[c]@.wf() by {
        assert(cols[c] == columns[c]@);
    }
    let mut key: Vec<u8> = Vec::new();
    let mut c: usize = 0;
    assert(types.take(0) =~= Seq::<DataType>::empty());
    assert(values.take(0) =~= Seq::<DataValueView>::empty());
    match kind {
        HashMethodKind::Serializer => {
            assert(key@ =~= serialized_row(values.take(0), types.take(0)));
            while c < columns.len()
                invariant
                    c <= columns.len(),
                    cols == columns_view(columns@),
                    types == column_types(cols),
                    values == key_row(cols, row as int),
                    forall|j: int|
                        0 <= j < columns.len() ==> row < (#[trigger] columns[j])@.values.len() && columns[j]@.wf(),
                    key@ == serialized_row(values.take(c as int), types.take(c as int)),
                decreases columns.len() - c,
            {
                proof {
                    assert(types.take(c + 1).drop_last() =~= types.take(c as int));
                    assert(values.take(c + 1).drop_last() =~= values.take(c as int));
                    assert(types.take(c + 1).last() == columns[c as int]@.data_type);
                    assert(values.take(c + 1).last() == columns[c as int]@.values[row as int]);
                }
                let column = &columns[c];
                push_serialized_value(&mut key, column.get(row), column.data_type());
                c += 1;
            }
            assert(types.take(c as int) =~= types);
            assert(values.take(c as int) =~= values);
            key
        },
        _ => {
            assert(key@ =~= fixed_row_bytes(values.take(0), types.take(0)));
            while c < columns.len()
                invariant
                    c <= columns.len(),
                    cols == columns_view(columns@),
                    types == column_types(cols),
                    values == key_row(cols, row as int),
                    total_key_size(types) is Some,
                    forall|j: int|
                        0 <= j < columns.len() ==> row < (#[trigger] columns[j])@.values.len() && columns[j]@.wf(),
                    key@ == fixed_row_bytes(values.take(c as int), types.take(c as int)),
                decreases columns.len() - c,
            {
                proof {
                    assert(types.take(c + 1).drop_last() =~= types.take(c as int));
                    assert(values.take(c + 1).drop_last() =~= values.take(c as int));
                    assert(types.take(c + 1).last() == columns[c as int]@.data_type);
                    assert(values.take(c + 1).last() == columns[c as int]@.values[row as int]);
                    lemma_total_prefix(types, c + 1);
                }
                let column = &columns[c];
                push_fixed_value(&mut key, column.get(row), column.data_type());
                c += 1;
            }
            assert(types.take(c as int) =~= types);
            assert(values.take(c as int) =~= values);
            proof {
                lemma_fixed_row_len(values, types);
            }
            let width = kind.key_width();
            let pad: usize = width - key.len();
            push_le_bytes(&mut key, 0, pad);
            key
        },
    }
}

/// Every prefix of types with a fixed size has a fixed size, and so has
/// its last type.
proof fn lemma_total_prefix(types: Seq<DataType>, n: int)
    requires
        0 < n <= types.len(),
        total_key_size(types) is Some,
    ensures
        total_key_size(types.take(n)) is Some,
        types[n - 1].fixed_key_size() is Some,
    decreases types.len() - n,
{
    if n < types.len() {
        lemma_total_prefix(types, n + 1);
        assert(types.take(n + 1).drop_last() =~= types.take(n));
    } else {
        assert(types.take(n) =~= types);
    }
}

/// Builds the key of each of the first `rows` rows of the key columns
/// `columns` under the encoding `kind`.
///
/// Fails with a `LogicalError` where a column does not hold `rows` values,
/// or the encoding cannot hold keys of the columns' types.
pub fn build_keys(kind: HashMethodKind, columns: &Vec<Column>, rows: usize) -> (r: Result<Vec<Vec<u8>>, ErrorCode>)
    ensures
        (method_fits(kind, column_types(columns_view(columns@))) && columns_have_rows(
            columns_view(columns@),
            rows as nat,
        )) ==> {
            &&& r is Ok
            &&& r->Ok_0.len() == rows
            &&& forall|i: int|
                0 <= i < rows ==> (#[trigger] r->Ok_0[i])@ == row_key(
                    kind,
                    column_types(columns_view(columns@)),
                    key_row(columns_view(columns@), i),
                )
        },
        !(method_fits(kind, column_types(columns_view(columns@))) && columns_have_rows(
            columns_view(columns@),
            rows as nat,
        )) ==> r is Err && r->Err_0.kind == ErrorKind::LogicalError,
{
    let ghost cols = columns_view(columns@);
    let mut types: Vec<DataType> = Vec::new();
    let mut c: usize = 0;
    while c < columns.len()
        invariant
            c <= columns.len(),
            cols == columns_view(columns@),
            types.len() == c,
            forall|j: int| 0 <= j < c ==> types[j] == cols[j].data_type,
            forall|j: int| 0 <= j < c ==> (#[trigger] cols[j]).values.len() == rows && cols[j].wf(),
        decreases columns.len() - c,
    {
        assert(cols[c as int] == columns[c as int]@);
        if columns[c].len() != rows {
            return Err(ErrorCode::create(ErrorKind::LogicalError, "Key column does not fit the block"));
        }
        types.push(columns[c].data_type().clone());
        c += 1;
    }
    assert(types@ =~= column_types(cols));
    match kind {
        HashMethodKind::Serializer => {},
        _ => {
            match fixed_total(&types) {
                Some(n) => {
                    if n > kind.key_width() as u128 {
                        return Err(ErrorCode::create(ErrorKind::LogicalError, "Keys do not fit the hash method"));
                    }
                },
                None => {
                    return Err(ErrorCode::create(ErrorKind::LogicalError, "Keys do not fit the hash method"));
                },
            }
        },
    }
    let mut keys: Vec<Vec<u8>> = Vec::new();
    let mut i: usize = 0;
    while i < rows
        invariant
            i <= rows,
            cols == columns_view(columns@),
            method_fits(kind, column_types(cols)),
            columns_have_rows(cols, rows as nat),
            keys.len() == i,
            forall|j: int|
                0 <= j < i ==> (#[trigger] keys[j])@ == row_key(kind, column_types(cols), key_row(cols, j)),
        decreases rows - i,
    {
        assert forall|c: int| 0 <= c < columns.len() implies i < (#[trigger] columns[c])@.values.len()
            && columns[c]@.wf() by {
            assert(cols[c] == columns[c]@);
        }
        keys.push(build_key(kind, columns, i));
        i += 1;
    }
    Ok(keys)
}

} // verus!
