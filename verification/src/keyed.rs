//! Name-keyed entries kept in insertion order.
//!
//! Several structures of the library (metric labels, registered metrics,
//! per-check health results) are small maps from names to values. They are
//! stored as sequences of entries whose names are pairwise distinct, and read
//! as the map that inserting the entries in order would build.
use vstd::prelude::*;

verus! {

/// The map built by inserting `entries` in order (a later entry wins).
pub open spec fn keyed_map<V>(entries: Seq<(Seq<char>, V)>) -> Map<Seq<char>, V>
    decreases entries.len(),
{
    if entries.len() == 0 {
        Map::empty()
    } else {
        keyed_map(entries.drop_last()).insert(entries.last().0, entries.last().1)
    }
}

/// No two entries share a name.
pub open spec fn distinct_keys<V>(entries: Seq<(Seq<char>, V)>) -> bool {
    forall|i: int, j: int|
        0 <= i < entries.len() && 0 <= j < entries.len() && i != j ==> #[trigger] entries[i].0
            != #[trigger] entries[j].0
}

/// The names of the entries, in order.
pub open spec fn keys_of<V>(entries: Seq<(Seq<char>, V)>) -> Seq<Seq<char>> {
    entries.map_values(|e: (Seq<char>, V)| e.0)
}

/// A name is a key of the map exactly when some entry carries it.
pub proof fn lemma_keyed_map_dom<V>(entries: Seq<(Seq<char>, V)>, k: Seq<char>)
    ensures
        keyed_map(entries).contains_key(k) <==> exists|i: int|
            0 <= i < entries.len() && #[trigger] entries[i].0 == k,
    decreases entries.len(),
{
    if entries.len() > 0 {
        let prefix = entries.drop_last();
        lemma_keyed_map_dom(prefix, k);
        if keyed_map(entries).contains_key(k) {
            if k == entries.last().0 {
                assert(entries[entries.len() - 1].0 == k);
            } else {
                let i = choose|i: int| 0 <= i < prefix.len() && #[trigger] prefix[i].0 == k;
                assert(entries[i].0 == k);
            }
        }
        if exists|i: int| 0 <= i < entries.len() && #[trigger] entries[i].0 == k {
            let i = choose|i: int| 0 <= i < entries.len() && #[trigger] entries[i].0 == k;
            if i < entries.len() - 1 {
                assert(prefix[i].0 == k);
            }
        }
    }
}

/// With distinct names, the map gives each entry's value under its name.
pub proof fn lemma_keyed_map_index<V>(entries: Seq<(Seq<char>, V)>, i: int)
    requires
        distinct_keys(entries),
        0 <= i < entries.len(),
    ensures
        keyed_map(entries).contains_key(entries[i].0),
        keyed_map(entries)[entries[i].0] == entries[i].1,
    decreases entries.len(),
{
    let prefix = entries.drop_last();
    if i < entries.len() - 1 {
        assert(distinct_keys(prefix)) by {
            assert forall|a: int, b: int|
                0 <= a < prefix.len() && 0 <= b < prefix.len() && a != b implies #[trigger] prefix[a].0
                != #[trigger] prefix[b].0 by {
                assert(prefix[a] == entries[a] && prefix[b] == entries[b]);
            }
        }
        lemma_keyed_map_index(prefix, i);
        assert(prefix[i] == entries[i]);
        assert(entries[i].0 != entries[entries.len() - 1].0);
    }
}

/// The map gives an entry's value under its name when no later entry
/// carries the same name.
pub proof fn lemma_keyed_map_last<V>(entries: Seq<(Seq<char>, V)>, i: int)
    requires
        0 <= i < entries.len(),
        forall|j: int| i < j < entries.len() ==> #[trigger] entries[j].0 != entries[i].0,
    ensures
        keyed_map(entries).contains_key(entries[i].0),
        keyed_map(entries)[entries[i].0] == entries[i].1,
    decreases entries.len(),
{
    if i < entries.len() - 1 {
        let prefix = entries.drop_last();
        assert forall|j: int| i < j < prefix.len() implies #[trigger] prefix[j].0 != prefix[i].0 by {
            assert(prefix[j] == entries[j]);
        }
        lemma_keyed_map_last(prefix, i);
        assert(prefix[i] == entries[i]);
        assert(entries[entries.len() - 1].0 != entries[i].0);
    }
}

/// Appending an entry with a fresh name inserts it into the map.
pub proof fn lemma_keyed_map_push<V>(entries: Seq<(Seq<char>, V)>, e: (Seq<char>, V))
    ensures
        keyed_map(entries.push(e)) == keyed_map(entries).insert(e.0, e.1),
{
    assert(entries.push(e).drop_last() =~= entries);
}

/// Appending an entry with a fresh name keeps the names distinct.
pub proof fn lemma_distinct_push<V>(entries: Seq<(Seq<char>, V)>, e: (Seq<char>, V))
    requires
        distinct_keys(entries),
        !keyed_map(entries).contains_key(e.0),
    ensures
        distinct_keys(entries.push(e)),
{
    lemma_keyed_map_dom(entries, e.0);
    let s = entries.push(e);
    assert forall|a: int, b: int|
        0 <= a < s.len() && 0 <= b < s.len() && a != b implies #[trigger] s[a].0
        != #[trigger] s[b].0 by {
        if a < entries.len() && b < entries.len() {
            assert(s[a] == entries[a] && s[b] == entries[b]);
        } else if a < entries.len() {
            assert(s[a] == entries[a]);
        } else {
            assert(s[b] == entries[b]);
        }
    }
}

/// Replacing the value of an entry replaces it in the map.
pub proof fn lemma_keyed_map_update<V>(entries: Seq<(Seq<char>, V)>, i: int, v: V)
    requires
        distinct_keys(entries),
        0 <= i < entries.len(),
    ensures
        keyed_map(entries.update(i, (entries[i].0, v))) == keyed_map(entries).insert(
            entries[i].0,
            v,
        ),
        distinct_keys(entries.update(i, (entries[i].0, v))),
    decreases entries.len(),
{
    let s = entries.update(i, (entries[i].0, v));
    assert forall|a: int, b: int|
        0 <= a < s.len() && 0 <= b < s.len() && a != b implies #[trigger] s[a].0
        != #[trigger] s[b].0 by {
        assert(s[a].0 == entries[a].0 && s[b].0 == entries[b].0);
    }
    let prefix = entries.drop_last();
    let last = entries.len() - 1;
    if i == last {
        assert(s.drop_last() =~= prefix);
        lemma_keyed_map_dom(prefix, entries[i].0);
        assert(keyed_map(s) =~= keyed_map(entries).insert(entries[i].0, v));
    } else {
        assert(distinct_keys(prefix)) by {
            assert forall|a: int, b: int|
                0 <= a < prefix.len() && 0 <= b < prefix.len() && a != b implies #[trigger] prefix[a].0
                != #[trigger] prefix[b].0 by {
                assert(prefix[a] == entries[a] && prefix[b] == entries[b]);
            }
        }
        lemma_keyed_map_update(prefix, i, v);
        assert(s.drop_last() =~= prefix.update(i, (prefix[i].0, v)));
        assert(entries[i].0 != entries[last].0);
        assert(keyed_map(s) =~= keyed_map(entries).insert(entries[i].0, v));
    }
}

/// The names of a map built from entries with distinct names number as many as the entries.
pub proof fn lemma_keyed_map_len<V>(entries: Seq<(Seq<char>, V)>)
    requires
        distinct_keys(entries),
    ensures
        keyed_map(entries).dom().len() == entries.len(),
        keyed_map(entries).dom().finite(),
    decreases entries.len(),
{
    if entries.len() > 0 {
        let prefix = entries.drop_last();
        assert(distinct_keys(prefix)) by {
            assert forall|a: int, b: int|
                0 <= a < prefix.len() && 0 <= b < prefix.len() && a != b implies #[trigger] prefix[a].0
                != #[trigger] prefix[b].0 by {
                assert(prefix[a] == entries[a] && prefix[b] == entries[b]);
            }
        }
        lemma_keyed_map_len(prefix);
        lemma_keyed_map_dom(prefix, entries.last().0);
        if keyed_map(prefix).contains_key(entries.last().0) {
            let i = choose|i: int| 0 <= i < prefix.len() && #[trigger] prefix[i].0 == entries.last().0;
            assert(entries[i].0 == entries[entries.len() - 1].0);
        }
    }
}

} // verus!
