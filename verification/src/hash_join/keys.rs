//! The encodings of join keys as bytes: one of fixed width for keys made of
//! integers, and a serialized one for keys of any types.

use crate::datavalues::data_type::DataType;
use crate::datavalues::data_value::integer_span;
use crate::datavalues::data_value::DataValueView;
use vstd::prelude::*;

verus! {

/// The way the keys of a join are encoded: serialized, or as an unsigned
/// integer of a fixed number of bits.
#[derive(Clone, Copy, Debug, PartialEq, Eq, Structural)]
pub enum HashMethodKind {
    Serializer,
    KeysU8,
    KeysU16,
    KeysU32,
    KeysU64,
    KeysU128,
    KeysU256,
    KeysU512,
}

impl HashMethodKind {
    /// The number of bytes of a key, 0 for the serialized encoding, whose
    /// keys have no fixed length.
    pub open spec fn width(self) -> nat {
        match self {
            HashMethodKind::Serializer => 0,
            HashMethodKind::KeysU8 => 1,
            HashMethodKind::KeysU16 => 2,
            HashMethodKind::KeysU32 => 4,
            HashMethodKind::KeysU64 => 8,
            HashMethodKind::KeysU128 => 16,
            HashMethodKind::KeysU256 => 32,
            HashMethodKind::KeysU512 => 64,
        }
    }

    pub fn key_width(&self) -> (w: usize)
        ensures
            w == self.width(),
    {
        match self {
            HashMethodKind::Serializer => 0,
            HashMethodKind::KeysU8 => 1,
            HashMethodKind::KeysU16 => 2,
            HashMethodKind::KeysU32 => 4,
            HashMethodKind::KeysU64 => 8,
            HashMethodKind::KeysU128 => 16,
            HashMethodKind::KeysU256 => 32,
            HashMethodKind::KeysU512 => 64,
        }
    }
}

/// The number of bytes that a key of the given types takes at fixed width,
/// `None` where one of the types has no fixed width.
pub open spec fn total_key_size(types: Seq<DataType>) -> Option<nat>
    decreases types.len(),
{
    if types.len() == 0 {
        Some(0)
    } else {
        match (total_key_size(types.drop_last()), types.last().fixed_key_size()) {
            (Some(n), Some(m)) => Some(n + m),
            _ => None,
        }
    }
}

/// The encoding for keys of the given types: the least fixed width that
/// holds them, and the serialized encoding where there are no keys, one of
/// them has no fixed width, or they take more than 64 bytes together.
pub open spec fn choose_method(types: Seq<DataType>) -> HashMethodKind {
    match total_key_size(types) {
        None => HashMethodKind::Serializer,
        Some(n) => if n == 0 {
            HashMethodKind::Serializer
        } else if n <= 1 {
            HashMethodKind::KeysU8
        } else if n <= 2 {
            HashMethodKind::KeysU16
        } else if n <= 4 {
            HashMethodKind::KeysU32
        } else if n <= 8 {
            HashMethodKind::KeysU64
        } else if n <= 16 {
            HashMethodKind::KeysU128
        } else if n <= 32 {
            HashMethodKind::KeysU256
        } else if n <= 64 {
            HashMethodKind::KeysU512
        } else {
            HashMethodKind::Serializer
        },
    }
}

/// Whether keys of the given types can be encoded by `kind`: any types by
/// the serialized encoding, types of fixed width that fit by a fixed one.
pub open spec fn method_fits(kind: HashMethodKind, types: Seq<DataType>) -> bool {
    kind == HashMethodKind::Serializer || (total_key_size(types) matches Some(n) && n <= kind.width())
}

/// `256` to the power of `n`.
pub open spec fn pow256(n: nat) -> nat
    decreases n,
{
    if n == 0 {
        1
    } else {
        256 * pow256((n - 1) as nat)
    }
}

/// The `size` low bytes of `n`, least significant first.
pub open spec fn le_bytes(n: nat, size: nat) -> Seq<u8>
    decreases size,
{
    if size == 0 {
        Seq::empty()
    } else {
        seq![(n % 256) as u8] + le_bytes(n / 256, (size - 1) as nat)
    }
}

/// The unsigned number that stands for an integer value in `size` bytes:
/// the value itself where it is not negative, else the value plus
/// `256^size`.
pub open spec fn integer_image(v: DataValueView, size: nat) -> nat {
    match v {
        DataValueView::UInt64(u) => u as nat,
        DataValueView::Int64(i) => if i >= 0 {
            i as nat
        } else {
            (i + integer_span(size)) as nat
        },
        _ => 0,
    }
}

/// The bytes of a value of type `t` in a fixed-width key. A nullable type
/// has one byte in front that is 1 for `NULL`, in which case the bytes of
/// the value are 0.
pub open spec fn fixed_value_bytes(v: DataValueView, t: DataType) -> Seq<u8> {
    let inner = t.remove_nullable();
    let payload = if v is Null {
        le_bytes(0, inner.byte_size())
    } else {
        le_bytes(integer_image(v, inner.byte_size()), inner.byte_size())
    };
    if t.is_nullable() {
        seq![if v is Null { 1u8 } else { 0u8 }] + payload
    } else {
        payload
    }
}

/// The bytes of the values of a row one after the other.
pub open spec fn fixed_row_bytes(row: Seq<DataValueView>, types: Seq<DataType>) -> Seq<u8>
    decreases types.len(),
{
    if types.len() == 0 || row.len() != types.len() {
        Seq::empty()
    } else {
        fixed_row_bytes(row.drop_last(), types.drop_last()) + fixed_value_bytes(row.last(), types.last())
    }
}

/// The bytes of a value of type `t` in a serialized key. A nullable type
/// has one byte in front that is 1 for `NULL`, after which nothing follows.
/// A byte string has its length in front, in 8 bytes.
pub open spec fn serialized_value(v: DataValueView, t: DataType) -> Seq<u8>
    decreases t,
{
    match t {
        DataType::Null => seq![1u8],
        DataType::Nullable(inner) => if v is Null {
            seq![1u8]
        } else {
            seq![0u8] + serialized_value(v, *inner)
        },
        DataType::Boolean => seq![if v == DataValueView::Boolean(true) { 1u8 } else { 0u8 }],
        DataType::String => match v {
            DataValueView::String(s) => le_bytes(s.len(), 8) + s,
            _ => Seq::empty(),
        },
        _ => le_bytes(integer_image(v, t.byte_size()), t.byte_size()),
    }
}

/// The serialized values of a row one after the other.
pub open spec fn serialized_row(row: Seq<DataValueView>, types: Seq<DataType>) -> Seq<u8>
    decreases types.len(),
{
    if types.len() == 0 || row.len() != types.len() {
        Seq::empty()
    } else {
        serialized_row(row.drop_last(), types.drop_last()) + serialized_value(row.last(), types.last())
    }
}

/// The key of a row under the encoding `kind`: the serialized row, or the
/// fixed-width bytes of the row filled up with zero bytes to the width.
pub open spec fn row_key(kind: HashMethodKind, types: Seq<DataType>, row: Seq<DataValueView>) -> Seq<u8> {
    if kind == HashMethodKind::Serializer {
        serialized_row(row, types)
    } else {
        let bytes = fixed_row_bytes(row, types);
        bytes + le_bytes(0, (kind.width() - bytes.len()) as nat)
    }
}

/// Whether `row` has one value for each type, each a value of its type.
pub open spec fn row_fits(row: Seq<DataValueView>, types: Seq<DataType>) -> bool {
    &&& row.len() == types.len()
    &&& forall|c: int| 0 <= c < row.len() ==> (#[trigger] row[c]).fits(types[c])
}

/// Whether a row holds a `NULL`.
pub open spec fn row_has_null(row: Seq<DataValueView>) -> bool {
    exists|c: int| 0 <= c < row.len() && #[trigger] row[c] is Null
}

pub proof fn lemma_le_bytes_len(n: nat, size: nat)
    ensures
        le_bytes(n, size).len() == size,
    decreases size,
{
    if size > 0 {
        lemma_le_bytes_len(n / 256, (size - 1) as nat);
    }
}

/// Numbers below `256^size` with the same `size` low bytes are equal.
pub proof fn lemma_le_bytes_injective(n: nat, m: nat, size: nat)
    requires
        n < pow256(size),
        m < pow256(size),
        le_bytes(n, size) == le_bytes(m, size),
    ensures
        n == m,
    decreases size,
{
    if size > 0 {
        let a = le_bytes(n, size);
        let b = le_bytes(m, size);
        let ra = le_bytes(n / 256, (size - 1) as nat);
        let rb = le_bytes(m / 256, (size - 1) as nat);
        assert(a[0] == (n % 256) as u8);
        assert(b[0] == (m % 256) as u8);
        assert(n % 256 == m % 256);
        assert(ra =~= a.subrange(1, a.len() as int));
        assert(rb =~= b.subrange(1, b.len() as int));
        lemma_le_bytes_injective(n / 256, m / 256, (size - 1) as nat);
    }
}

/// Two sequences that are equal and start with parts of one length have
/// these parts and the rests equal.
pub proof fn lemma_split_equal(a: Seq<u8>, x: Seq<u8>, b: Seq<u8>, y: Seq<u8>)
    requires
        a + x == b + y,
        a.len() == b.len(),
    ensures
        a == b,
        x == y,
{
    assert(a =~= (a + x).subrange(0, a.len() as int));
    assert(b =~= (b + y).subrange(0, b.len() as int));
    assert(x =~= (a + x).subrange(a.len() as int, (a + x).len() as int));
    assert(y =~= (b + y).subrange(b.len() as int, (b + y).len() as int));
}

pub proof fn lemma_pow256_values()
    ensures
        pow256(1) == 0x100,
        pow256(2) == 0x1_0000,
        pow256(4) == 0x1_0000_0000,
        pow256(8) == 0x1_0000_0000_0000_0000,
{
    reveal_with_fuel(pow256, 9);
}

/// The image of a value of an integer type is below `256^size`, and two
/// values of the type with one image are equal.
pub proof fn lemma_image(v: DataValueView, w: DataValueView, t: DataType)
    requires
        t.is_integer(),
        v.fits(t),
        w.fits(t),
    ensures
        integer_image(v, t.byte_size()) < pow256(t.byte_size()),
        integer_image(v, t.byte_size()) == integer_image(w, t.byte_size()) ==> v == w,
{
    lemma_pow256_values();
}

/// The number of bytes of a value in a fixed-width key is the size of its
/// type.
pub proof fn lemma_fixed_value_len(v: DataValueView, t: DataType)
    requires
        t.fixed_key_size() is Some,
    ensures
        fixed_value_bytes(v, t).len() == t.fixed_key_size().unwrap(),
{
    let inner = t.remove_nullable();
    lemma_le_bytes_len(0, inner.byte_size());
    lemma_le_bytes_len(integer_image(v, inner.byte_size()), inner.byte_size());
}

/// Two values of a type of fixed width with the same bytes are equal.
pub proof fn lemma_fixed_value_injective(v: DataValueView, w: DataValueView, t: DataType)
    requires
        t.fixed_key_size() is Some,
        v.fits(t),
        w.fits(t),
        fixed_value_bytes(v, t) == fixed_value_bytes(w, t),
    ensures
        v == w,
{
    reveal_with_fuel(DataValueView::fits, 2);
    let inner = t.remove_nullable();
    let size = inner.byte_size();
    let pv = if v is Null { le_bytes(0, size) } else { le_bytes(integer_image(v, size), size) };
    let pw = if w is Null { le_bytes(0, size) } else { le_bytes(integer_image(w, size), size) };
    lemma_le_bytes_len(0, size);
    lemma_le_bytes_len(integer_image(v, size), size);
    lemma_le_bytes_len(integer_image(w, size), size);
    if t.is_nullable() {
        let fv = seq![if v is Null { 1u8 } else { 0u8 }];
        let fw = seq![if w is Null { 1u8 } else { 0u8 }];
        lemma_split_equal(fv, pv, fw, pw);
        assert(fv[0] == fw[0]);
    }
    assert(pv == pw);
    assert((v is Null) == (w is Null));
    if !(v is Null) {
        lemma_image(v, w, inner);
        lemma_image(w, v, inner);
        lemma_le_bytes_injective(integer_image(v, size), integer_image(w, size), size);
    }
}

/// The number of bytes of a row at fixed width is the size of its types
/// together.
pub proof fn lemma_fixed_row_len(row: Seq<DataValueView>, types: Seq<DataType>)
    requires
        row.len() == types.len(),
        total_key_size(types) is Some,
    ensures
        fixed_row_bytes(row, types).len() == total_key_size(types).unwrap(),
    decreases types.len(),
{
    if types.len() > 0 {
        lemma_fixed_row_len(row.drop_last(), types.drop_last());
        lemma_fixed_value_len(row.last(), types.last());
    }
}

/// A key of fixed width has as many bytes as its width.
pub proof fn lemma_row_key_len(kind: HashMethodKind, types: Seq<DataType>, row: Seq<DataValueView>)
    requires
        kind != HashMethodKind::Serializer,
        method_fits(kind, types),
        row.len() == types.len(),
    ensures
        row_key(kind, types, row).len() == kind.width(),
{
    lemma_fixed_row_len(row, types);
    lemma_le_bytes_len(0, (kind.width() - fixed_row_bytes(row, types).len()) as nat);
}

/// Two rows of types of fixed width with the same bytes are equal.
pub proof fn lemma_fixed_row_injective(a: Seq<DataValueView>, b: Seq<DataValueView>, types: Seq<DataType>)
    requires
        row_fits(a, types),
        row_fits(b, types),
        total_key_size(types) is Some,
        fixed_row_bytes(a, types) == fixed_row_bytes(b, types),
    ensures
        a == b,
    decreases types.len(),
{
    if types.len() > 0 {
        let ta = types.drop_last();
        lemma_fixed_row_len(a.drop_last(), ta);
        lemma_fixed_row_len(b.drop_last(), ta);
        lemma_split_equal(
            fixed_row_bytes(a.drop_last(), ta),
            fixed_value_bytes(a.last(), types.last()),
            fixed_row_bytes(b.drop_last(), ta),
            fixed_value_bytes(b.last(), types.last()),
        );
        assert(row_fits(a.drop_last(), ta)) by {
            assert forall|c: int| 0 <= c < a.drop_last().len() implies (#[trigger] a.drop_last()[c]).fits(
                ta[c],
            ) by {
                assert(a[c].fits(types[c]));
            }
        }
        assert(row_fits(b.drop_last(), ta)) by {
            assert forall|c: int| 0 <= c < b.drop_last().len() implies (#[trigger] b.drop_last()[c]).fits(
                ta[c],
            ) by {
                assert(b[c].fits(types[c]));
            }
        }
        lemma_fixed_row_injective(a.drop_last(), b.drop_last(), ta);
        assert(a.last().fits(types.last())) by {
            assert(a[a.len() - 1].fits(types[a.len() - 1]));
        }
        assert(b.last().fits(types.last())) by {
            assert(b[b.len() - 1].fits(types[b.len() - 1]));
        }
        lemma_fixed_value_injective(a.last(), b.last(), types.last());
        assert(a =~= a.drop_last().push(a.last()));
        assert(b =~= b.drop_last().push(b.last()));
    } else {
        assert(a =~= b);
    }
}

/// No serialized value is the start of another: where two values of a type
/// are serialized, each followed by more bytes, and the results are equal,
/// the values are equal and so is what follows them.
pub proof fn lemma_serialized_value_prefix_free(
    v: DataValueView,
    w: DataValueView,
    t: DataType,
    x: Seq<u8>,
    y: Seq<u8>,
)
    requires
        v.fits(t),
        w.fits(t),
        serialized_value(v, t) + x == serialized_value(w, t) + y,
    ensures
        v == w,
        x == y,
    decreases t,
{
    let sv = serialized_value(v, t);
    let sw = serialized_value(w, t);
    match t {
        DataType::Null => {
            lemma_split_equal(sv, x, sw, y);
        },
        DataType::Nullable(inner) => {
            assert((sv + x)[0] == sv[0]);
            assert((sw + y)[0] == sw[0]);
            if v is Null || w is Null {
                assert(v is Null && w is Null);
                lemma_split_equal(sv, x, sw, y);
            } else {
                let iv = serialized_value(v, *inner);
                let iw = serialized_value(w, *inner);
                assert(iv + x =~= (sv + x).subrange(1, (sv + x).len() as int));
                assert(iw + y =~= (sw + y).subrange(1, (sw + y).len() as int));
                lemma_serialized_value_prefix_free(v, w, *inner, x, y);
            }
        },
        DataType::Boolean => {
            lemma_split_equal(sv, x, sw, y);
            assert(sv[0] == sw[0]);
        },
        DataType::String => {
            let s1 = v->String_0;
            let s2 = w->String_0;
            let l1 = le_bytes(s1.len(), 8);
            let l2 = le_bytes(s2.len(), 8);
            lemma_le_bytes_len(s1.len(), 8);
            lemma_le_bytes_len(s2.len(), 8);
            assert(l1 + (s1 + x) =~= sv + x);
            assert(l2 + (s2 + y) =~= sw + y);
            lemma_split_equal(l1, s1 + x, l2, s2 + y);
            lemma_pow256_values();
            lemma_le_bytes_injective(s1.len(), s2.len(), 8);
            lemma_split_equal(s1, x, s2, y);
        },
        _ => {
            let size = t.byte_size();
            lemma_le_bytes_len(integer_image(v, size), size);
            lemma_le_bytes_len(integer_image(w, size), size);
            lemma_split_equal(sv, x, sw, y);
            lemma_image(v, w, t);
            lemma_image(w, v, t);
            lemma_le_bytes_injective(integer_image(v, size), integer_image(w, size), size);
        },
    }
}

/// The serialized row read from its first value: the bytes of the first
/// value, then those of the remaining values.
pub proof fn lemma_serialized_row_first(row: Seq<DataValueView>, types: Seq<DataType>)
    requires
        row.len() == types.len(),
        types.len() > 0,
    ensures
        serialized_row(row, types) == serialized_value(row[0], types[0]) + serialized_row(
            row.subrange(1, row.len() as int),
            types.subrange(1, types.len() as int),
        ),
    decreases types.len(),
{
    let r1 = row.subrange(1, row.len() as int);
    let t1 = types.subrange(1, types.len() as int);
    if types.len() == 1 {
        assert(row.drop_last() =~= Seq::<DataValueView>::empty());
        assert(types.drop_last() =~= Seq::<DataType>::empty());
        assert(serialized_row(row.drop_last(), types.drop_last()) =~= Seq::<u8>::empty());
        assert(serialized_row(r1, t1) =~= Seq::<u8>::empty());
        assert(row.last() == row[0]);
        assert(types.last() == types[0]);
        assert(serialized_row(row, types) == serialized_row(row.drop_last(), types.drop_last())
            + serialized_value(row.last(), types.last()));
        assert(serialized_row(row, types) =~= serialized_value(row[0], types[0]) + serialized_row(r1, t1));
    } else {
        lemma_serialized_row_first(row.drop_last(), types.drop_last());
        assert(row.drop_last().subrange(1, row.len() - 1) =~= r1.drop_last());
        assert(types.drop_last().subrange(1, types.len() - 1) =~= t1.drop_last());
        assert(r1.last() == row.last());
        assert(t1.last() == types.last());
        assert(row.drop_last()[0] == row[0]);
        assert(types.drop_last()[0] == types[0]);
        let head = serialized_value(row[0], types[0]);
        let middle = serialized_row(r1.drop_last(), t1.drop_last());
        let tail = serialized_value(row.last(), types.last());
        assert(serialized_row(row.drop_last(), types.drop_last()) == head + middle);
        assert(serialized_row(r1, t1) == middle + tail);
        assert(serialized_row(row, types) == (head + middle) + tail);
        assert((head + middle) + tail =~= head + (middle + tail));
    }
}

/// Two rows whose serialized bytes, each followed by more bytes, are equal
/// are equal, and so is what follows them.
pub proof fn lemma_serialized_front(
    a: Seq<DataValueView>,
    b: Seq<DataValueView>,
    types: Seq<DataType>,
    x: Seq<u8>,
    y: Seq<u8>,
)
    requires
        row_fits(a, types),
        row_fits(b, types),
        serialized_row(a, types) + x == serialized_row(b, types) + y,
    ensures
        a == b,
        x == y,
    decreases types.len(), 0nat,
{
    if types.len() == 0 {
        assert(a =~= b);
        assert(x =~= serialized_row(a, types) + x);
        assert(y =~= serialized_row(b, types) + y);
    } else {
        let a1 = a.subrange(1, a.len() as int);
        let b1 = b.subrange(1, b.len() as int);
        let t1 = types.subrange(1, types.len() as int);
        lemma_serialized_row_first(a, types);
        lemma_serialized_row_first(b, types);
        let va = serialized_value(a[0], types[0]);
        let vb = serialized_value(b[0], types[0]);
        assert(va + (serialized_row(a1, t1) + x) =~= serialized_row(a, types) + x);
        assert(vb + (serialized_row(b1, t1) + y) =~= serialized_row(b, types) + y);
        assert(a[0].fits(types[0]));
        assert(b[0].fits(types[0]));
        lemma_serialized_value_prefix_free(
            a[0],
            b[0],
            types[0],
            serialized_row(a1, t1) + x,
            serialized_row(b1, t1) + y,
        );
        assert(row_fits(a1, t1)) by {
            assert forall|c: int| 0 <= c < a1.len() implies (#[trigger] a1[c]).fits(t1[c]) by {
                assert(a[c + 1].fits(types[c + 1]));
            }
        }
        assert(row_fits(b1, t1)) by {
            assert forall|c: int| 0 <= c < b1.len() implies (#[trigger] b1[c]).fits(t1[c]) by {
                assert(b[c + 1].fits(types[c + 1]));
            }
        }
        lemma_serialized_front(a1, b1, t1, x, y);
        assert(a =~= seq![a[0]] + a1);
        assert(b =~= seq![b[0]] + b1);
    }
}

} // verus!
