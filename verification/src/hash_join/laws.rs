//! What holds of the hash join whatever the data.

use crate::datavalues::block::BlockView;
use crate::datavalues::column::ColumnView;
use crate::datavalues::data_type::DataType;
use crate::datavalues::data_value::DataValueView;
use crate::hash_join::hash_method::column_types;
use crate::hash_join::hash_method::columns_have_rows;
use crate::hash_join::hash_method::key_row;
use crate::hash_join::keys::fixed_row_bytes;
use crate::hash_join::keys::le_bytes;
use crate::hash_join::keys::lemma_fixed_row_injective;
use crate::hash_join::keys::lemma_fixed_row_len;
use crate::hash_join::keys::lemma_serialized_front;
use crate::hash_join::keys::lemma_split_equal;
use crate::hash_join::keys::method_fits;
use crate::hash_join::keys::row_fits;
use crate::hash_join::keys::row_has_null;
use crate::hash_join::keys::row_key;
use crate::hash_join::keys::HashMethodKind;
use crate::hash_join::probe_spec::candidates;
use crate::hash_join::probe_spec::emitted;
use crate::hash_join::probe_spec::pair_matches;
use crate::hash_join::probe_spec::probe_side;
use crate::hash_join::probe_spec::row_matches;
use crate::hash_join::row::valid_ptr;
use crate::hash_join::row::ChunkView;
use crate::hash_join::state::chunk_key;
use crate::hash_join::state::chunk_rows_with_key;
use crate::hash_join::state::chunk_wf;
use crate::hash_join::state::rows_with_key;
use crate::hash_join::state::serialized_keys;
use crate::hash_join::state::JoinView;
use crate::hash_join::table::RowPtr;
use crate::planner::plans::JoinType;
use vstd::prelude::*;

verus! {

/// Two rows of the key types have the same key exactly where they are
/// equal, whatever the encoding.
pub proof fn lemma_key_injective(
    kind: HashMethodKind,
    types: Seq<DataType>,
    a: Seq<DataValueView>,
    b: Seq<DataValueView>,
)
    requires
        method_fits(kind, types),
        row_fits(a, types),
        row_fits(b, types),
    ensures
        (row_key(kind, types, a) == row_key(kind, types, b)) <==> a == b,
{
    if row_key(kind, types, a) == row_key(kind, types, b) {
        if kind == HashMethodKind::Serializer {
            let empty = Seq::<u8>::empty();
            assert(row_key(kind, types, a) + empty =~= row_key(kind, types, a));
            assert(row_key(kind, types, b) + empty =~= row_key(kind, types, b));
            lemma_serialized_front(a, b, types, empty, empty);
        } else {
            let fa = fixed_row_bytes(a, types);
            let fb = fixed_row_bytes(b, types);
            lemma_fixed_row_len(a, types);
            lemma_fixed_row_len(b, types);
            lemma_split_equal(
                fa,
                le_bytes(0, (kind.width() - fa.len()) as nat),
                fb,
                le_bytes(0, (kind.width() - fb.len()) as nat),
            );
            lemma_fixed_row_injective(a, b, types);
        }
    }
}

/// The encodings agree: where the keys have a fixed width, two rows have
/// the same key at that width exactly where they have the same serialized
/// key.
pub proof fn lemma_encodings_agree(
    kind: HashMethodKind,
    types: Seq<DataType>,
    a: Seq<DataValueView>,
    b: Seq<DataValueView>,
)
    requires
        method_fits(kind, types),
        row_fits(a, types),
        row_fits(b, types),
    ensures
        (row_key(kind, types, a) == row_key(kind, types, b)) <==> (row_key(HashMethodKind::Serializer, types, a)
            == row_key(HashMethodKind::Serializer, types, b)),
{
    lemma_key_injective(kind, types, a, b);
    lemma_key_injective(HashMethodKind::Serializer, types, a, b);
}

/// Whether a chunk of a join with keys of fixed width and a chunk of a
/// join with serialized keys hold the same rows with the same key
/// columns.
pub open spec fn same_chunk(types: Seq<DataType>, fixed: ChunkView, serialized: ChunkView) -> bool {
    &&& fixed.block.num_rows() == serialized.block.num_rows()
    &&& fixed.keys is None
    &&& fixed.cols matches Some(cols) && column_types(cols) == types && columns_have_rows(
        cols,
        fixed.block.num_rows(),
    ) && serialized.keys == Some(serialized_keys(types, cols, fixed.block.num_rows()))
}

/// The rows of a chunk that a probe key finds are the same under both
/// encodings.
pub proof fn lemma_chunk_lookups_agree(
    kind: HashMethodKind,
    types: Seq<DataType>,
    fixed: ChunkView,
    serialized: ChunkView,
    ci: int,
    rows: nat,
    probe: Seq<DataValueView>,
)
    requires
        method_fits(kind, types),
        row_fits(probe, types),
        same_chunk(types, fixed, serialized),
        rows <= fixed.block.num_rows(),
    ensures
        chunk_rows_with_key(kind, types, fixed, ci, rows, row_key(kind, types, probe)) == chunk_rows_with_key(
            HashMethodKind::Serializer,
            types,
            serialized,
            ci,
            rows,
            row_key(HashMethodKind::Serializer, types, probe),
        ),
    decreases rows,
{
    if rows > 0 {
        lemma_chunk_lookups_agree(kind, types, fixed, serialized, ci, (rows - 1) as nat, probe);
        let cols = fixed.cols.unwrap();
        let row = key_row(cols, rows - 1);
        assert(row_fits(row, types)) by {
            assert forall|c: int| 0 <= c < row.len() implies (#[trigger] row[c]).fits(types[c]) by {
                assert(cols[c].wf());
                assert(cols[c].values[rows - 1].fits(cols[c].data_type));
            }
        }
        lemma_encodings_agree(kind, types, row, probe);
    }
}

/// The lookups agree: a join with keys of fixed width and a join with
/// serialized keys over the same rows find the same rows of the build side
/// for every probe key.
pub proof fn lemma_lookups_agree(
    kind: HashMethodKind,
    types: Seq<DataType>,
    fixed: Seq<ChunkView>,
    serialized: Seq<ChunkView>,
    n: nat,
    probe: Seq<DataValueView>,
)
    requires
        method_fits(kind, types),
        row_fits(probe, types),
        fixed.len() == serialized.len(),
        n <= fixed.len(),
        forall|ci: int| 0 <= ci < fixed.len() ==> same_chunk(types, #[trigger] fixed[ci], serialized[ci]),
    ensures
        rows_with_key(kind, types, fixed, n, row_key(kind, types, probe)) == rows_with_key(
            HashMethodKind::Serializer,
            types,
            serialized,
            n,
            row_key(HashMethodKind::Serializer, types, probe),
        ),
    decreases n,
{
    if n > 0 {
        lemma_lookups_agree(kind, types, fixed, serialized, (n - 1) as nat, probe);
        assert(same_chunk(types, fixed[n - 1], serialized[n - 1]));
        lemma_chunk_lookups_agree(
            kind,
            types,
            fixed[n - 1],
            serialized[n - 1],
            n - 1,
            fixed[n - 1].block.num_rows(),
            probe,
        );
    }
}

/// The rows of the build side that have the key `key`.
pub open spec fn build_rows_with_key(v: JoinView, key: Seq<u8>) -> Set<RowPtr> {
    Set::new(
        |p: RowPtr|
            valid_ptr(v.chunks, p) && chunk_key(
                v.method,
                v.key_types,
                v.chunks[p.chunk_index as int],
                p.row_index as int,
            ) == key,
    )
}

/// Whether the row `p` comes before the row `q` on the build side.
pub open spec fn before(p: RowPtr, q: RowPtr) -> bool {
    p.chunk_index < q.chunk_index || (p.chunk_index == q.chunk_index && p.row_index < q.row_index)
}

/// The rows that a chunk holds under a key are its rows with that key, in
/// their order.
pub proof fn lemma_chunk_rows(v: JoinView, ci: int, rows: nat, key: Seq<u8>)
    requires
        0 <= ci < v.chunks.len(),
        v.chunks.len() <= u32::MAX,
        rows <= v.chunks[ci].block.num_rows(),
        v.chunks[ci].block.num_rows() <= u32::MAX,
    ensures
        forall|p: RowPtr|
            #[trigger] chunk_rows_with_key(v.method, v.key_types, v.chunks[ci], ci, rows, key).contains(p) <==> (
            p.chunk_index == ci && p.row_index < rows && chunk_key(
                v.method,
                v.key_types,
                v.chunks[ci],
                p.row_index as int,
            ) == key),
        forall|i: int, j: int|
            0 <= i < j < chunk_rows_with_key(v.method, v.key_types, v.chunks[ci], ci, rows, key).len() ==> before(
                chunk_rows_with_key(v.method, v.key_types, v.chunks[ci], ci, rows, key)[i],
                chunk_rows_with_key(v.method, v.key_types, v.chunks[ci], ci, rows, key)[j],
            ),
    decreases rows,
{
    let s = chunk_rows_with_key(v.method, v.key_types, v.chunks[ci], ci, rows, key);
    if rows > 0 {
        let prev = chunk_rows_with_key(v.method, v.key_types, v.chunks[ci], ci, (rows - 1) as nat, key);
        lemma_chunk_rows(v, ci, (rows - 1) as nat, key);
        let last = RowPtr { chunk_index: ci as u32, row_index: (rows - 1) as u32 };
        let hit = chunk_key(v.method, v.key_types, v.chunks[ci], rows - 1) == key;
        assert forall|p: RowPtr|
            #[trigger] s.contains(p) <==> (p.chunk_index == ci && p.row_index < rows && chunk_key(
                v.method,
                v.key_types,
                v.chunks[ci],
                p.row_index as int,
            ) == key) by {
            if hit {
                assert(s == prev.push(last));
                if s.contains(p) {
                    let k = choose|k: int| 0 <= k < s.len() && s[k] == p;
                    if k < prev.len() {
                        assert(prev[k] == p);
                        assert(prev.contains(p));
                    }
                }
                if prev.contains(p) {
                    let k = choose|k: int| 0 <= k < prev.len() && prev[k] == p;
                    assert(s[k] == p);
                }
                if p == last {
                    assert(s[s.len() - 1] == p);
                }
            }
        }
        assert forall|i: int, j: int| 0 <= i < j < s.len() implies before(s[i], s[j]) by {
            if hit && j == s.len() - 1 {
                assert(prev.contains(prev[i]));
            }
        }
    }
}

/// The rows that the first `n` chunks hold under a key are their rows with
/// that key, in their order.
pub proof fn lemma_rows(v: JoinView, n: nat, key: Seq<u8>)
    requires
        v.wf(),
        n <= v.chunks.len(),
    ensures
        forall|p: RowPtr|
            #[trigger] rows_with_key(v.method, v.key_types, v.chunks, n, key).contains(p) <==> (p.chunk_index < n
                && build_rows_with_key(v, key).contains(p)),
        forall|i: int, j: int|
            0 <= i < j < rows_with_key(v.method, v.key_types, v.chunks, n, key).len() ==> before(
                rows_with_key(v.method, v.key_types, v.chunks, n, key)[i],
                rows_with_key(v.method, v.key_types, v.chunks, n, key)[j],
            ),
    decreases n,
{
    let s = rows_with_key(v.method, v.key_types, v.chunks, n, key);
    if n > 0 {
        let prev = rows_with_key(v.method, v.key_types, v.chunks, (n - 1) as nat, key);
        let chunk = v.chunks[n - 1];
        let here = chunk_rows_with_key(v.method, v.key_types, chunk, n - 1, chunk.block.num_rows(), key);
        assert(chunk_wf(chunk, v));
        lemma_rows(v, (n - 1) as nat, key);
        lemma_chunk_rows(v, n - 1, chunk.block.num_rows(), key);
        assert(s == prev + here);
        assert forall|p: RowPtr|
            #[trigger] s.contains(p) <==> (p.chunk_index < n && build_rows_with_key(v, key).contains(p)) by {
            if s.contains(p) {
                let k = choose|k: int| 0 <= k < s.len() && s[k] == p;
                if k < prev.len() {
                    assert(prev[k] == p);
                    assert(prev.contains(p));
                    assert(p.chunk_index < n - 1 && build_rows_with_key(v, key).contains(p));
                } else {
                    assert(here[k - prev.len()] == p);
                    assert(here.contains(p));
                    assert(p.chunk_index == n - 1 && p.row_index < chunk.block.num_rows());
                    assert(valid_ptr(v.chunks, p));
                }
            }
            if p.chunk_index < n && build_rows_with_key(v, key).contains(p) {
                if p.chunk_index < n - 1 {
                    assert(prev.contains(p));
                    let k = choose|k: int| 0 <= k < prev.len() && prev[k] == p;
                    assert(s[k] == p);
                } else {
                    assert(valid_ptr(v.chunks, p));
                    assert(here.contains(p));
                    let k = choose|k: int| 0 <= k < here.len() && here[k] == p;
                    assert(s[prev.len() + k] == p);
                }
            }
        }
        assert forall|i: int, j: int| 0 <= i < j < s.len() implies before(s[i], s[j]) by {
            if j < prev.len() {
                assert(s[i] == prev[i] && s[j] == prev[j]);
            } else if i < prev.len() {
                assert(s[i] == prev[i]);
                assert(s[j] == here[j - prev.len()]);
                assert(prev.contains(prev[i]));
                assert(here.contains(here[j - prev.len()]));
                assert(prev[i].chunk_index < n - 1);
                assert(here[j - prev.len()].chunk_index == n - 1);
            } else {
                assert(s[i] == here[i - prev.len()]);
                assert(s[j] == here[j - prev.len()]);
            }
        }
    } else {
        assert(s =~= Seq::<RowPtr>::empty());
    }
}

/// Filtering by a predicate that holds of every row changes nothing.
pub proof fn lemma_filter_all(s: Seq<RowPtr>, pred: spec_fn(RowPtr) -> bool)
    requires
        forall|p: RowPtr| #[trigger] pred(p),
    ensures
        s.filter(pred) == s,
    decreases s.len(),
{
    reveal(Seq::filter);
    if s.len() > 0 {
        lemma_filter_all(s.drop_last(), pred);
        assert(s.drop_last().push(s.last()) =~= s);
    }
}

/// Duplicate keys are all kept: in a finished inner join without other
/// predicate, a probe row whose key has no `NULL` is put out once for each
/// row of the build side that has its key, no more and no less.
pub proof fn lemma_inner_join_counts_duplicates(v: JoinView, input: BlockView, keys: Seq<ColumnView>, i: int)
    requires
        v.wf(),
        v.finished,
        v.join_type == JoinType::Inner,
        v.other_predicate is None,
        !row_has_null(key_row(keys, i)),
    ensures
        build_rows_with_key(v, row_key(v.method, v.key_types, key_row(keys, i))).finite(),
        emitted(v.join_type, row_matches(v, input, keys, i)).len() == build_rows_with_key(
            v,
            row_key(v.method, v.key_types, key_row(keys, i)),
        ).len(),
{
    let key = row_key(v.method, v.key_types, key_row(keys, i));
    let found = rows_with_key(v.method, v.key_types, v.chunks, v.chunks.len(), key);
    assert(candidates(v, keys, i) == found);
    lemma_filter_all(found, |p: RowPtr| pair_matches(v, input, i, p));
    assert(row_matches(v, input, keys, i) == found);
    lemma_rows(v, v.chunks.len(), key);
    assert(found.no_duplicates()) by {
        assert forall|a: int, b: int| 0 <= a < found.len() && 0 <= b < found.len() && a != b implies found[a]
            != found[b] by {
            if a < b {
                assert(before(found[a], found[b]));
            } else {
                assert(before(found[b], found[a]));
            }
        }
    }
    assert(found.to_set() =~= build_rows_with_key(v, key)) by {
        assert forall|p: RowPtr| found.to_set().contains(p) <==> build_rows_with_key(v, key).contains(p) by {
            assert(found.to_set().contains(p) == found.contains(p));
        }
    }
    found.unique_seq_to_set();
}

/// A semi join and an anti join put each probe row out in exactly one of
/// them: a row with the matches `m` goes out once in the one and not at all
/// in the other.
pub proof fn lemma_semi_anti_complement(m: Seq<RowPtr>)
    ensures
        emitted(JoinType::Semi, m).len() + emitted(JoinType::Anti, m).len() == 1,
{
}

/// The probe rows that the first `n` rows put out come in their order, and
/// a semi or anti join puts out the rows for which [`emitted`] is not
/// empty.
pub proof fn lemma_probe_side(v: JoinView, input: BlockView, keys: Seq<ColumnView>, n: nat)
    requires
        v.join_type == JoinType::Semi || v.join_type == JoinType::Anti,
        n <= u32::MAX,
    ensures
        forall|k: int|
            0 <= k < probe_side(v, input, keys, n).len() ==> (#[trigger] probe_side(v, input, keys, n)[k]) < n,
        forall|a: int, b: int|
            0 <= a < b < probe_side(v, input, keys, n).len() ==> probe_side(v, input, keys, n)[a] < probe_side(
                v,
                input,
                keys,
                n,
            )[b],
        forall|i: u32|
            i < n ==> (#[trigger] probe_side(v, input, keys, n).contains(i) <==> emitted(
                v.join_type,
                row_matches(v, input, keys, i as int),
            ).len() > 0),
    decreases n,
{
    let s = probe_side(v, input, keys, n);
    if n > 0 {
        let prev = probe_side(v, input, keys, (n - 1) as nat);
        let out = emitted(v.join_type, row_matches(v, input, keys, n - 1));
        let here = Seq::new(out.len(), |k: int| (n - 1) as u32);
        lemma_probe_side(v, input, keys, (n - 1) as nat);
        assert(s == prev + here);
        assert(out.len() <= 1);
        assert forall|i: u32| i < n implies (#[trigger] s.contains(i) <==> emitted(
            v.join_type,
            row_matches(v, input, keys, i as int),
        ).len() > 0) by {
            if s.contains(i) {
                let k = choose|k: int| 0 <= k < s.len() && s[k] == i;
                if k < prev.len() {
                    assert(prev[k] == i);
                    assert(prev.contains(i));
                } else {
                    assert(here[k - prev.len()] == i);
                }
            }
            if i < n - 1 && prev.contains(i) {
                let k = choose|k: int| 0 <= k < prev.len() && prev[k] == i;
                assert(s[k] == i);
            }
            if i == n - 1 && out.len() > 0 {
                assert(s[prev.len() as int] == i);
            }
        }
        assert forall|a: int, b: int| 0 <= a < b < s.len() implies s[a] < s[b] by {
            if b >= prev.len() {
                assert(s[b] == here[b - prev.len()]);
                assert(s[a] == prev[a]);
            }
        }
    }
}

/// Semi and anti join are complements: over the same state and the same
/// probe block, every probe row is put out by exactly one of the two
/// joins, and by that one once.
pub proof fn lemma_semi_anti_partition(
    semi: JoinView,
    anti: JoinView,
    input: BlockView,
    keys: Seq<ColumnView>,
    n: nat,
)
    requires
        semi.join_type == JoinType::Semi,
        anti == (JoinView { join_type: JoinType::Anti, ..semi }),
        n <= u32::MAX,
    ensures
        forall|i: u32|
            i < n ==> (#[trigger] probe_side(semi, input, keys, n).contains(i) != probe_side(
                anti,
                input,
                keys,
                n,
            ).contains(i)),
        probe_side(semi, input, keys, n).no_duplicates(),
        probe_side(anti, input, keys, n).no_duplicates(),
        forall|k: int|
            0 <= k < probe_side(semi, input, keys, n).len() ==> (#[trigger] probe_side(semi, input, keys, n)[k]) < n,
        forall|k: int|
            0 <= k < probe_side(anti, input, keys, n).len() ==> (#[trigger] probe_side(anti, input, keys, n)[k]) < n,
{
    lemma_probe_side(semi, input, keys, n);
    lemma_probe_side(anti, input, keys, n);
    assert forall|i: u32| i < n implies (#[trigger] probe_side(semi, input, keys, n).contains(i) != probe_side(
        anti,
        input,
        keys,
        n,
    ).contains(i)) by {
        assert(row_matches(semi, input, keys, i as int) =~= row_matches(anti, input, keys, i as int)) by {
            assert(candidates(semi, keys, i as int) == candidates(anti, keys, i as int));
            let ps = |p: RowPtr| pair_matches(semi, input, i as int, p);
            let pa = |p: RowPtr| pair_matches(anti, input, i as int, p);
            assert(ps =~= pa);
        }
        lemma_semi_anti_complement(row_matches(semi, input, keys, i as int));
    }
    let s = probe_side(semi, input, keys, n);
    let a = probe_side(anti, input, keys, n);
    assert(s.no_duplicates()) by {
        assert forall|x: int, y: int| 0 <= x < s.len() && 0 <= y < s.len() && x != y implies s[x] != s[y] by {
            if x < y {
                assert(s[x] < s[y]);
            } else {
                assert(s[y] < s[x]);
            }
        }
    }
    assert(a.no_duplicates()) by {
        assert forall|x: int, y: int| 0 <= x < a.len() && 0 <= y < a.len() && x != y implies a[x] != a[y] by {
            if x < y {
                assert(a[x] < a[y]);
            } else {
                assert(a[y] < a[x]);
            }
        }
    }
}

/// The number of rows that are left of `rows` under a limit of one row.
pub open spec fn count_of_one(rows: Seq<RowPtr>) -> nat {
    if rows.len() > 1 {
        1
    } else {
        rows.len()
    }
}

/// Counting tells a semi join from an anti join: a probe row with the
/// matches `m` goes out of a semi join exactly where at most one of its
/// matches, counted, gives 1, and out of an anti join exactly where it
/// gives 0.
pub proof fn lemma_count_of_one_decides(m: Seq<RowPtr>)
    ensures
        (count_of_one(m) == 1) <==> emitted(JoinType::Semi, m).len() == 1,
        (count_of_one(m) == 0) <==> emitted(JoinType::Anti, m).len() == 1,
{
}

} // verus!
