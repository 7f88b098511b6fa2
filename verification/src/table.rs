//! Keyed tables over vectors of pairs.
//!
//! The in-memory store keeps each of its tables as a vector of
//! `(key, value)` pairs with pairwise-distinct keys, and reasons about
//! them through [`table_view`], the finite map a table denotes.  The
//! lemmas here relate the vector operations (push, remove, lookup) to the
//! corresponding map operations.
use vstd::prelude::*;

verus! {

/// The finite map a table denotes: the view of every key maps to the view
/// of the value beside it; a later entry would shadow an earlier one.
pub open spec fn table_view<K: View, V: View>(s: Seq<(K, V)>) -> Map<K::V, V::V>
    decreases s.len(),
{
    if s.len() == 0 {
        Map::empty()
    } else {
        table_view(s.drop_last()).insert(s.last().0@, s.last().1@)
    }
}

/// Whether the keys of a table are pairwise distinct (as views).
pub open spec fn distinct_keys<K: View, V: View>(s: Seq<(K, V)>) -> bool {
    forall|i: int, j: int|
        0 <= i < j < s.len() ==> #[trigger] s[i].0@ != #[trigger] s[j].0@
}

/// Appending an entry inserts its binding into the table's map.
pub proof fn lemma_table_push<K: View, V: View>(s: Seq<(K, V)>, k: K, v: V)
    ensures
        table_view(s.push((k, v))) == table_view(s).insert(k@, v@),
        forall|i: int| 0 <= i < s.len() ==> s.push((k, v))[i] == s[i],
{
    assert(s.push((k, v)).drop_last() =~= s);
    assert(s.push((k, v)).last() == (k, v));
}

/// Appending an entry whose key is absent keeps the keys distinct.
pub proof fn lemma_table_push_distinct<K: View, V: View>(s: Seq<(K, V)>, k: K, v: V)
    requires
        distinct_keys(s),
        !table_view(s).contains_key(k@),
    ensures
        distinct_keys(s.push((k, v))),
{
    lemma_table_contains::<K, V>(s, k@);
    let t = s.push((k, v));
    assert forall|a: int, b: int| 0 <= a < b < t.len() implies t[a].0@ != t[b].0@ by {
        if b < s.len() {
            assert(t[a] == s[a] && t[b] == s[b]);
        } else {
            assert(t[a] == s[a]);
            assert(s[a].0@ != k@);
        }
    }
}

/// A table's map contains a key exactly when some entry carries it.
pub proof fn lemma_table_contains<K: View, V: View>(s: Seq<(K, V)>, kv: K::V)
    ensures
        table_view(s).contains_key(kv) <==> exists|i: int| 0 <= i < s.len() && s[i].0@ == kv,
    decreases s.len(),
{
    if s.len() > 0 {
        lemma_table_contains::<K, V>(s.drop_last(), kv);
        if s.last().0@ == kv {
            assert(s[s.len() - 1].0@ == kv);
        } else {
            if table_view(s).contains_key(kv) {
                let i = choose|i: int| 0 <= i < s.drop_last().len() && s.drop_last()[i].0@ == kv;
                assert(s[i].0@ == kv);
            }
            if exists|i: int| 0 <= i < s.len() && s[i].0@ == kv {
                let i = choose|i: int| 0 <= i < s.len() && s[i].0@ == kv;
                assert(i < s.len() - 1);
                assert(s.drop_last()[i].0@ == kv);
            }
        }
    }
}

/// In a distinct-keyed table, the entry carrying a key gives the map's
/// value at that key.
pub proof fn lemma_table_at<K: View, V: View>(s: Seq<(K, V)>, i: int)
    requires
        distinct_keys(s),
        0 <= i < s.len(),
    ensures
        table_view(s).contains_key(s[i].0@),
        table_view(s)[s[i].0@] == s[i].1@,
    decreases s.len(),
{
    if i == s.len() - 1 {
    } else {
        assert(distinct_keys(s.drop_last()));
        assert(s.drop_last()[i] == s[i]);
        lemma_table_at::<K, V>(s.drop_last(), i);
        assert(s.last().0@ != s[i].0@);
    }
}

/// Removing the entry at an index of a distinct-keyed table removes its
/// binding from the map and keeps the keys distinct.
pub proof fn lemma_table_remove<K: View, V: View>(s: Seq<(K, V)>, i: int)
    requires
        distinct_keys(s),
        0 <= i < s.len(),
    ensures
        table_view(s.remove(i)) == table_view(s).remove(s[i].0@),
        distinct_keys(s.remove(i)),
    decreases s.len(),
{
    let t = s.remove(i);
    assert forall|a: int, b: int| 0 <= a < b < t.len() implies t[a].0@ != t[b].0@ by {
        if b < i {
            assert(t[a] == s[a] && t[b] == s[b]);
        } else if a < i {
            assert(t[a] == s[a] && t[b] == s[b + 1]);
        } else {
            assert(t[a] == s[a + 1] && t[b] == s[b + 1]);
        }
    }
    if i == s.len() - 1 {
        assert(s.remove(i) =~= s.drop_last());
        lemma_table_contains::<K, V>(s.drop_last(), s[i].0@);
        assert forall|j: int| 0 <= j < s.drop_last().len() implies s.drop_last()[j].0@ != s[i].0@
        by {
            assert(s[j].0@ != s[i].0@);
        }
        assert(!table_view(s.drop_last()).contains_key(s[i].0@));
        assert(table_view(s.drop_last()) =~= table_view(s).remove(s[i].0@));
    } else {
        assert(distinct_keys(s.drop_last()));
        lemma_table_remove::<K, V>(s.drop_last(), i);
        assert(s.remove(i).drop_last() =~= s.drop_last().remove(i));
        assert(s.remove(i).last() == s.last());
        assert(s[i] == s.drop_last()[i]);
        assert(table_view(s.remove(i)) == table_view(s.drop_last().remove(i)).insert(
            s.last().0@,
            s.last().1@,
        ));
        assert(s.last().0@ != s[i].0@);
        assert(table_view(s.drop_last()).remove(s[i].0@).insert(s.last().0@, s.last().1@)
            =~= table_view(s.drop_last()).insert(s.last().0@, s.last().1@).remove(s[i].0@));
    }
}

} // verus!
