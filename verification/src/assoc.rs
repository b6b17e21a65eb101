//! Lists of entries under string keys, and the mappings they stand for.

use crate::string::{lemma_lex_irreflexive, lemma_lex_transitive, lex_lt};
use vstd::prelude::*;

verus! {

/// No key stands at two places of `entries`.
pub open spec fn keys_distinct<V>(entries: Seq<(Seq<char>, V)>) -> bool {
    forall|i: int, j: int|
        0 <= i < entries.len() && 0 <= j < entries.len() && (#[trigger] entries[i]).0 == (#[trigger] entries[j]).0
            ==> i == j
}

/// Some entry of `entries` has the key `key`.
pub open spec fn has_key<V>(entries: Seq<(Seq<char>, V)>, key: Seq<char>) -> bool {
    exists|i: int| 0 <= i < entries.len() && (#[trigger] entries[i]).0 == key
}

/// The place of an entry with the key `key`.
pub open spec fn place_of<V>(entries: Seq<(Seq<char>, V)>, key: Seq<char>) -> int {
    choose|i: int| 0 <= i < entries.len() && (#[trigger] entries[i]).0 == key
}

/// The mapping that `entries` stands for.
pub open spec fn mapping_of<V>(entries: Seq<(Seq<char>, V)>) -> Map<Seq<char>, V> {
    Map::new(|key: Seq<char>| has_key(entries, key), |key: Seq<char>| entries[place_of(entries, key)].1)
}

/// With distinct keys, the mapping gives each key the value beside it.
pub proof fn lemma_mapping_at<V>(entries: Seq<(Seq<char>, V)>, i: int)
    requires
        keys_distinct(entries),
        0 <= i < entries.len(),
    ensures
        has_key(entries, entries[i].0),
        mapping_of(entries).contains_key(entries[i].0),
        mapping_of(entries)[entries[i].0] == entries[i].1,
{
    let key = entries[i].0;
    assert(has_key(entries, key));
    let j = place_of(entries, key);
    assert(entries[i].0 == entries[j].0);
}

/// The empty list stands for the empty mapping.
pub proof fn lemma_empty_mapping<V>()
    ensures
        keys_distinct(Seq::<(Seq<char>, V)>::empty()),
        mapping_of(Seq::<(Seq<char>, V)>::empty()) == Map::<Seq<char>, V>::empty(),
{
    assert(mapping_of(Seq::<(Seq<char>, V)>::empty()) =~= Map::<Seq<char>, V>::empty());
}

/// Giving the entry at `i` a new value changes the mapping at its key only.
pub proof fn lemma_update_mapping<V>(entries: Seq<(Seq<char>, V)>, i: int, value: V)
    requires
        keys_distinct(entries),
        0 <= i < entries.len(),
    ensures
        keys_distinct(entries.update(i, (entries[i].0, value))),
        mapping_of(entries.update(i, (entries[i].0, value))) == mapping_of(entries).insert(entries[i].0, value),
{
    let key = entries[i].0;
    let after = entries.update(i, (key, value));
    assert(keys_distinct(after)) by {
        assert forall|a: int, b: int|
            0 <= a < after.len() && 0 <= b < after.len() && (#[trigger] after[a]).0 == (#[trigger] after[b]).0 implies a
            == b by {
            assert(entries[a].0 == entries[b].0);
        }
    }
    assert forall|k: Seq<char>| mapping_of(after).contains_key(k) <==> #[trigger] mapping_of(entries).insert(
        key,
        value,
    ).contains_key(k) by {
        if mapping_of(after).contains_key(k) {
            let j = place_of(after, k);
            assert(entries[j].0 == k);
        }
        if mapping_of(entries).contains_key(k) {
            let j = place_of(entries, k);
            assert(after[j].0 == k);
        }
        assert(after[i].0 == key);
    }
    assert forall|k: Seq<char>| #[trigger] mapping_of(after).contains_key(k) implies mapping_of(after)[k]
        == mapping_of(entries).insert(key, value)[k] by {
        let j = place_of(after, k);
        lemma_mapping_at(after, j);
        if j != i {
            assert(entries[j].0 == k);
            lemma_mapping_at(entries, j);
            assert(entries[i].0 == key);
        }
    }
    assert(mapping_of(after) =~= mapping_of(entries).insert(key, value));
}

/// Putting an entry with a new key at any place adds its key to the mapping.
pub proof fn lemma_insert_mapping<V>(entries: Seq<(Seq<char>, V)>, i: int, entry: (Seq<char>, V))
    requires
        keys_distinct(entries),
        0 <= i <= entries.len(),
        !has_key(entries, entry.0),
    ensures
        keys_distinct(entries.insert(i, entry)),
        mapping_of(entries.insert(i, entry)) == mapping_of(entries).insert(entry.0, entry.1),
{
    let after = entries.insert(i, entry);
    assert forall|a: int| 0 <= a < after.len() && a != i implies #[trigger] after[a] == entries[if a < i {
        a
    } else {
        a - 1
    }] by {}
    assert(keys_distinct(after)) by {
        assert forall|a: int, b: int|
            0 <= a < after.len() && 0 <= b < after.len() && (#[trigger] after[a]).0 == (#[trigger] after[b]).0 implies a
            == b by {
            let x = if a < i { a } else { a - 1 };
            let y = if b < i { b } else { b - 1 };
            if a != i && b != i {
                assert(entries[x].0 == entries[y].0);
            } else if a != i {
                assert(entries[x].0 == entry.0);
            } else if b != i {
                assert(entries[y].0 == entry.0);
            }
        }
    }
    assert forall|k: Seq<char>| mapping_of(after).contains_key(k) <==> #[trigger] mapping_of(entries).insert(
        entry.0,
        entry.1,
    ).contains_key(k) by {
        if mapping_of(after).contains_key(k) {
            let j = place_of(after, k);
            if j < i {
                assert(entries[j].0 == k);
            } else if j > i {
                assert(entries[j - 1].0 == k);
            }
        }
        if mapping_of(entries).contains_key(k) {
            let j = place_of(entries, k);
            if j < i {
                assert(after[j].0 == k);
            } else {
                assert(after[j + 1].0 == k);
            }
        }
        assert(after[i].0 == entry.0);
    }
    assert forall|k: Seq<char>| #[trigger] mapping_of(after).contains_key(k) implies mapping_of(after)[k]
        == mapping_of(entries).insert(entry.0, entry.1)[k] by {
        let j = place_of(after, k);
        lemma_mapping_at(after, j);
        if j < i {
            assert(entries[j] == after[j]);
            lemma_mapping_at(entries, j);
        } else if j > i {
            assert(entries[j - 1] == after[j]);
            lemma_mapping_at(entries, j - 1);
        }
    }
    assert(mapping_of(after) =~= mapping_of(entries).insert(entry.0, entry.1));
}

/// The keys of `entries` strictly increase in lexicographic order.
pub open spec fn keys_increase<V>(entries: Seq<(Seq<char>, V)>) -> bool {
    forall|i: int, j: int| 0 <= i < j < entries.len() ==> lex_lt(#[trigger] entries[i].0, #[trigger] entries[j].0)
}

/// Increasing keys are distinct keys.
pub proof fn lemma_increasing_keys_distinct<V>(entries: Seq<(Seq<char>, V)>)
    requires
        keys_increase(entries),
    ensures
        keys_distinct(entries),
{
    assert forall|i: int, j: int|
        0 <= i < entries.len() && 0 <= j < entries.len() && (#[trigger] entries[i]).0 == (#[trigger] entries[j]).0 implies i
        == j by {
        lemma_lex_irreflexive(entries[i].0);
        if i < j {
            assert(lex_lt(entries[i].0, entries[j].0));
        } else if j < i {
            assert(lex_lt(entries[j].0, entries[i].0));
        }
    }
}

/// Two lists with increasing keys that stand for the same mapping are the
/// same list: the order of the entries is fixed by the mapping.
pub proof fn lemma_entries_fixed_by_mapping<V>(a: Seq<(Seq<char>, V)>, b: Seq<(Seq<char>, V)>)
    requires
        keys_increase(a),
        keys_increase(b),
        mapping_of(a) == mapping_of(b),
    ensures
        a == b,
    decreases a.len(),
{
    lemma_increasing_keys_distinct(a);
    lemma_increasing_keys_distinct(b);
    if a.len() == 0 {
        if b.len() > 0 {
            lemma_mapping_at(b, 0);
            assert(has_key(a, b[0].0));
        }
        assert(a =~= b);
    } else if b.len() == 0 {
        lemma_mapping_at(a, 0);
        assert(has_key(b, a[0].0));
    } else {
        // The smallest key of each list lies in the other one, so the two
        // heads carry the same key.
        lemma_mapping_at(a, 0);
        lemma_mapping_at(b, 0);
        assert(has_key(b, a[0].0));
        assert(has_key(a, b[0].0));
        let ib = place_of(b, a[0].0);
        let ia = place_of(a, b[0].0);
        if ib != 0 {
            // b[0] < b[ib] == a[0] <= a[ia] == b[0]
            if ia != 0 {
                lemma_lex_transitive(b[0].0, a[0].0, a[ia].0);
            }
            lemma_lex_irreflexive(b[0].0);
        }
        assert(a[0].0 == b[0].0);
        assert(a[0].1 == b[0].1);
        let ta = a.drop_first();
        let tb = b.drop_first();
        assert(keys_increase(ta)) by {
            assert forall|i: int, j: int| 0 <= i < j < ta.len() implies lex_lt(#[trigger] ta[i].0, #[trigger] ta[j].0) by {
                assert(lex_lt(a[i + 1].0, a[j + 1].0));
            }
        }
        assert(keys_increase(tb)) by {
            assert forall|i: int, j: int| 0 <= i < j < tb.len() implies lex_lt(#[trigger] tb[i].0, #[trigger] tb[j].0) by {
                assert(lex_lt(b[i + 1].0, b[j + 1].0));
            }
        }
        assert(mapping_of(ta) =~= mapping_of(tb)) by {
            lemma_tail_mapping(a);
            lemma_tail_mapping(b);
        }
        lemma_entries_fixed_by_mapping(ta, tb);
        assert(a =~= seq![a[0]] + ta);
        assert(b =~= seq![b[0]] + tb);
    }
}

/// The mapping of a list without its head is the mapping of the list without
/// the head's key.
pub proof fn lemma_tail_mapping<V>(entries: Seq<(Seq<char>, V)>)
    requires
        keys_increase(entries),
        entries.len() > 0,
    ensures
        mapping_of(entries.drop_first()) == mapping_of(entries).remove(entries[0].0),
{
    let tail = entries.drop_first();
    assert(keys_increase(tail)) by {
        assert forall|i: int, j: int| 0 <= i < j < tail.len() implies lex_lt(#[trigger] tail[i].0, #[trigger] tail[j].0) by {
            assert(lex_lt(entries[i + 1].0, entries[j + 1].0));
        }
    }
    lemma_increasing_keys_distinct(entries);
    lemma_increasing_keys_distinct(tail);
    assert forall|key: Seq<char>| mapping_of(tail).contains_key(key) <==> #[trigger] mapping_of(entries).remove(
        entries[0].0,
    ).contains_key(key) by {
        if mapping_of(tail).contains_key(key) {
            let i = place_of(tail, key);
            assert(entries[i + 1].0 == key);
            lemma_lex_irreflexive(key);
            assert(lex_lt(entries[0].0, entries[i + 1].0));
        }
        if mapping_of(entries).remove(entries[0].0).contains_key(key) {
            let i = place_of(entries, key);
            assert(tail[i - 1].0 == key);
        }
    }
    assert forall|key: Seq<char>| #[trigger] mapping_of(tail).contains_key(key) implies mapping_of(tail)[key]
        == mapping_of(entries).remove(entries[0].0)[key] by {
        let i = place_of(tail, key);
        lemma_mapping_at(tail, i);
        assert(entries[i + 1] == tail[i]);
        lemma_mapping_at(entries, i + 1);
        lemma_lex_irreflexive(key);
        assert(lex_lt(entries[0].0, entries[i + 1].0));
    }
    assert(mapping_of(tail) =~= mapping_of(entries).remove(entries[0].0));
}

/// Giving the entry at `i` a new value keeps the keys increasing.
pub proof fn lemma_update_keeps_order<V>(entries: Seq<(Seq<char>, V)>, i: int, value: V)
    requires
        keys_increase(entries),
        0 <= i < entries.len(),
    ensures
        keys_increase(entries.update(i, (entries[i].0, value))),
{
    let after = entries.update(i, (entries[i].0, value));
    assert forall|a: int, b: int| 0 <= a < b < after.len() implies lex_lt(
        #[trigger] after[a].0,
        #[trigger] after[b].0,
    ) by {
        assert(lex_lt(entries[a].0, entries[b].0));
    }
}

/// Putting an entry between the smaller keys and the greater ones keeps the
/// keys increasing.
pub proof fn lemma_insert_keeps_order<V>(entries: Seq<(Seq<char>, V)>, i: int, entry: (Seq<char>, V))
    requires
        keys_increase(entries),
        0 <= i <= entries.len(),
        forall|j: int| 0 <= j < i ==> lex_lt((#[trigger] entries[j]).0, entry.0),
        forall|j: int| i <= j < entries.len() ==> lex_lt(entry.0, (#[trigger] entries[j]).0),
    ensures
        keys_increase(entries.insert(i, entry)),
        !has_key(entries, entry.0),
{
    let after = entries.insert(i, entry);
    assert forall|a: int, b: int| 0 <= a < b < after.len() implies lex_lt(
        #[trigger] after[a].0,
        #[trigger] after[b].0,
    ) by {
        if a < i && b > i {
            assert(lex_lt(entries[a].0, entries[b - 1].0));
        } else if a < i && b < i {
            assert(lex_lt(entries[a].0, entries[b].0));
        } else if a > i {
            assert(lex_lt(entries[a - 1].0, entries[b - 1].0));
        } else if a == i {
            assert(lex_lt(entry.0, entries[b - 1].0));
        } else {
            assert(lex_lt(entries[a].0, entry.0));
        }
    }
    if has_key(entries, entry.0) {
        let j = place_of(entries, entry.0);
        lemma_lex_irreflexive(entry.0);
    }
}


} // verus!
