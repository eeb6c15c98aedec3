//! The insertion-ordered maps the call structures use, and the vocabulary
//! their contracts are written in: a map is modelled by its sequence of
//! key/value entries in insertion order, with pairwise-distinct keys.

use vstd::prelude::*;

use indexmap::IndexMap;

verus! {

#[verifier::external_type_specification]
#[verifier::external_body]
#[verifier::reject_recursive_types(K)]
#[verifier::reject_recursive_types(V)]
#[verifier::reject_recursive_types(S)]
pub struct ExIndexMap<K, V, S>(IndexMap<K, V, S>);

/// Relies on `indexmap::IndexMap::clone`. Nothing is assumed of the clone:
/// contracts never read a cloned map.
pub assume_specification<K, V, S>[ <IndexMap<K, V, S> as Clone>::clone ](
    m: &IndexMap<K, V, S>,
) -> IndexMap<K, V, S>
    where
        K: Clone,
        V: Clone,
        S: Clone,
;

/// No two entries share a key: what an insertion-ordered map guarantees of
/// its entries.
pub open spec fn entries_distinct<V>(es: Seq<(Seq<char>, V)>) -> bool {
    forall|m: int, n: int| 0 <= m < n < es.len() ==> (#[trigger] es[m]).0 != (#[trigger] es[n]).0
}

/// Whether some entry holds the key `k`.
pub open spec fn has_key<V>(es: Seq<(Seq<char>, V)>, k: Seq<char>) -> bool {
    exists|n: int| 0 <= n < es.len() && (#[trigger] es[n]).0 == k
}

/// The place of the entry holding `k`, when one does.
pub open spec fn key_index<V>(es: Seq<(Seq<char>, V)>, k: Seq<char>) -> int {
    choose|n: int| 0 <= n < es.len() && (#[trigger] es[n]).0 == k
}

/// The value stored for `k`, when `k` is present.
pub open spec fn spec_get<V>(es: Seq<(Seq<char>, V)>, k: Seq<char>) -> Option<V> {
    if has_key(es, k) {
        Some(es[key_index(es, k)].1)
    } else {
        None
    }
}

/// What inserting does to the entries: an existing key keeps its place and
/// takes the new value; a new key is appended last.
pub open spec fn spec_insert<V>(es: Seq<(Seq<char>, V)>, k: Seq<char>, v: V) -> Seq<
    (Seq<char>, V),
> {
    if has_key(es, k) {
        es.update(key_index(es, k), (k, v))
    } else {
        es.push((k, v))
    }
}

/// Inserting keeps the keys pairwise distinct.
pub proof fn lemma_spec_insert_distinct<V>(es: Seq<(Seq<char>, V)>, k: Seq<char>, v: V)
    requires
        entries_distinct(es),
    ensures
        entries_distinct(spec_insert(es, k, v)),
{
    if has_key(es, k) {
        let i = key_index(es, k);
        assert(0 <= i < es.len() && es[i].0 == k);
        let es2 = es.update(i, (k, v));
        assert forall|m: int, n: int| 0 <= m < n < es2.len() implies (#[trigger] es2[m]).0 != (
        #[trigger] es2[n]).0 by {
            assert(es2[m].0 == es[m].0);
            assert(es2[n].0 == es[n].0);
        }
    } else {
        let es2 = es.push((k, v));
        assert forall|m: int, n: int| 0 <= m < n < es2.len() implies (#[trigger] es2[m]).0 != (
        #[trigger] es2[n]).0 by {
            if n < es.len() {
                assert(es2[m].0 == es[m].0);
                assert(es2[n].0 == es[n].0);
            } else {
                assert(es2[n] == (k, v));
                assert(es2[m].0 == es[m].0);
                assert(!has_key(es, k));
            }
        }
    }
}

/// After inserting, `k` is present and reads back the inserted value, and
/// every other key reads what it read before.
pub proof fn lemma_spec_insert_get<V>(es: Seq<(Seq<char>, V)>, k: Seq<char>, v: V)
    requires
        entries_distinct(es),
    ensures
        spec_get(spec_insert(es, k, v), k) == Some(v),
        forall|k2: Seq<char>|
            k2 != k ==> #[trigger] spec_get(spec_insert(es, k, v), k2) == spec_get(es, k2),
{
    let es2 = spec_insert(es, k, v);
    if has_key(es, k) {
        let i = key_index(es, k);
        assert(0 <= i < es.len() && es[i].0 == k);
        assert(es2[i] == (k, v));
        assert(has_key(es2, k));
        let j = key_index(es2, k);
        assert(0 <= j < es2.len() && es2[j].0 == k);
        if j != i {
            assert(es2[j].0 == es[j].0);
            assert(es[j].0 == es[i].0);
            assert(false);
        }
    } else {
        let i = es.len() as int;
        assert(es2[i] == (k, v));
        assert(has_key(es2, k));
        let j = key_index(es2, k);
        if j != i {
            assert(es2[j].0 == es[j].0);
            assert(has_key(es, k));
            assert(false);
        }
    }
    assert forall|k2: Seq<char>| k2 != k implies #[trigger] spec_get(es2, k2) == spec_get(
        es,
        k2,
    ) by {
        lemma_insert_other_key(es, k, v, k2);
    }
}

proof fn lemma_insert_other_key<V>(es: Seq<(Seq<char>, V)>, k: Seq<char>, v: V, k2: Seq<char>)
    requires
        entries_distinct(es),
        k2 != k,
    ensures
        spec_get(spec_insert(es, k, v), k2) == spec_get(es, k2),
{
    let es2 = spec_insert(es, k, v);
    let i = if has_key(es, k) {
        key_index(es, k)
    } else {
        es.len() as int
    };
    assert(es2[i] == (k, v));
    assert(forall|n: int| 0 <= n < es2.len() && n != i ==> #[trigger] es2[n] == es[n]);
    if has_key(es, k2) {
        let n = key_index(es, k2);
        assert(0 <= n < es.len() && es[n].0 == k2);
        assert(n != i);
        assert(es2[n].0 == k2);
        assert(has_key(es2, k2));
        let n2 = key_index(es2, k2);
        assert(0 <= n2 < es2.len() && es2[n2].0 == k2);
        assert(n2 != i);
        assert(es2[n2] == es[n2]);
        if n2 != n {
            assert(es[n2].0 == es[n].0);
            assert(false);
        }
    } else {
        if has_key(es2, k2) {
            let n2 = key_index(es2, k2);
            assert(0 <= n2 < es2.len() && es2[n2].0 == k2);
            assert(n2 != i);
            assert(es2[n2] == es[n2]);
            assert(has_key(es, k2));
            assert(false);
        }
    }
}

/// Distinct keys pin the witness: any entry holding `k` stands at
/// `key_index(es, k)`.
pub proof fn lemma_key_index_unique<V>(es: Seq<(Seq<char>, V)>, k: Seq<char>, n: int)
    requires
        entries_distinct(es),
        0 <= n < es.len(),
        es[n].0 == k,
    ensures
        has_key(es, k),
        key_index(es, k) == n,
        spec_get(es, k) == Some(es[n].1),
{
    assert(has_key(es, k));
    let j = key_index(es, k);
    assert(0 <= j < es.len() && es[j].0 == k);
    if j != n {
        assert(false);
    }
}

/// Every entry after an insert is either an old entry in place or the
/// inserted pair.
pub proof fn lemma_spec_insert_entries<V>(es: Seq<(Seq<char>, V)>, k: Seq<char>, v: V)
    ensures
        forall|n: int|
            0 <= n < spec_insert(es, k, v).len() ==> ((#[trigger] spec_insert(es, k, v)[n]) == (
            k,
            v,
            ) || (0 <= n < es.len() && spec_insert(es, k, v)[n] == es[n])),
{
    if has_key(es, k) {
        let i = key_index(es, k);
        assert(0 <= i < es.len() && es[i].0 == k);
    }
}

} // verus!
