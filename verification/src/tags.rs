//! Tags: a mapping from short string keys to short string values. Keys are
//! unique and the entries are kept in the lexicographic order of their keys,
//! so that the same mapping is always written out in the same way.

use crate::assoc::{
    keys_distinct, keys_increase, lemma_entries_fixed_by_mapping, lemma_increasing_keys_distinct,
    lemma_insert_keeps_order, lemma_insert_mapping, lemma_mapping_at, lemma_update_keeps_order,
    lemma_update_mapping, mapping_of,
};
use crate::string::{equal, lemma_lex_total, lemma_lex_transitive, less_than, lex_lt};
use vstd::prelude::*;

verus! {

/// One tag, by the characters of its key and of its value.
pub type TagModel = (Seq<char>, Seq<char>);

/// The entries of the mapping `tags` in the order of their keys.
pub open spec fn entries_of(tags: Map<Seq<char>, Seq<char>>) -> Seq<TagModel> {
    choose|entries: Seq<TagModel>| keys_increase(entries) && mapping_of(entries) == tags
}

/// A list with increasing keys is the list of the entries of its mapping.
pub proof fn lemma_entries_of(entries: Seq<TagModel>)
    requires
        keys_increase(entries),
    ensures
        entries_of(mapping_of(entries)) == entries,
{
    let found = entries_of(mapping_of(entries));
    assert(keys_increase(found) && mapping_of(found) == mapping_of(entries));
    lemma_entries_fixed_by_mapping(found, entries);
}

/// A set of tags.
#[derive(Debug, PartialEq, Eq, PartialOrd, Ord)]
pub struct Tags {
    entries: Vec<(String, String)>,
}

impl View for Tags {
    type V = Map<Seq<char>, Seq<char>>;

    /// The mapping from keys to values.
    open spec fn view(&self) -> Map<Seq<char>, Seq<char>> {
        mapping_of(self.entries())
    }
}

impl Tags {
    /// The entries in the order in which they are kept and written out.
    pub closed spec fn entries(&self) -> Seq<TagModel> {
        self.entries@.map_values(|e: (String, String)| (e.0@, e.1@))
    }

    #[verifier::type_invariant]
    spec fn ordered(&self) -> bool {
        keys_increase(self.entries())
    }

    /// No tags.
    pub fn new() -> (tags: Tags)
        ensures
            tags.entries() == Seq::<TagModel>::empty(),
            tags@ == Map::<Seq<char>, Seq<char>>::empty(),
    {
        let tags = Tags { entries: Vec::new() };
        assert(tags.entries() =~= Seq::<TagModel>::empty());
        assert(tags@ =~= Map::<Seq<char>, Seq<char>>::empty());
        tags
    }

    /// The number of tags. The entries are those of the mapping in the order
    /// of their keys, whatever the tags were built from.
    pub fn len(&self) -> (n: usize)
        ensures
            n == self.entries().len(),
            keys_increase(self.entries()),
            self.entries() == entries_of(self@),
    {
        proof {
            use_type_invariant(self);
            lemma_entries_of(self.entries());
        }
        self.entries.len()
    }

    /// The key of the entry at `index`.
    pub fn key_at(&self, index: usize) -> (key: &String)
        requires
            index < self.entries().len(),
        ensures
            key@ == self.entries()[index as int].0,
    {
        &self.entries[index].0
    }

    /// The value of the entry at `index`.
    pub fn value_at(&self, index: usize) -> (value: &String)
        requires
            index < self.entries().len(),
        ensures
            value@ == self.entries()[index as int].1,
    {
        &self.entries[index].1
    }

    /// The value under `key`, if there is one.
    pub fn get(&self, key: &str) -> (value: Option<&String>)
        ensures
            value is Some <==> self@.contains_key(key@),
            value matches Some(v) ==> v@ == self@[key@],
    {
        proof {
            use_type_invariant(self);
            lemma_increasing_keys_distinct(self.entries());
        }
        let mut i: usize = 0;
        while i < self.entries.len()
            invariant
                i <= self.entries.len(),
                keys_distinct(self.entries()),
                forall|j: int| 0 <= j < i ==> (#[trigger] self.entries()[j]).0 != key@,
            decreases self.entries.len() - i,
        {
            if equal(self.entries[i].0.as_str(), key) {
                proof {
                    lemma_mapping_at(self.entries(), i as int);
                }
                return Some(&self.entries[i].1);
            }
            i += 1;
        }
        None
    }

    /// Puts `value` under `key` and returns the value that was there before.
    pub fn insert(&mut self, key: String, value: String) -> (before: Option<String>)
        ensures
            final(self)@ == old(self)@.insert(key@, value@),
            before is Some <==> old(self)@.contains_key(key@),
            before matches Some(v) ==> v@ == old(self)@[key@],
    {
        proof {
            use_type_invariant(&*self);
        }
        let ghost before_entries = self.entries();
        let mut entries: Vec<(String, String)> = Vec::new();
        std::mem::swap(&mut self.entries, &mut entries);
        let mut i: usize = 0;
        while i < entries.len() && less_than(entries[i].0.as_str(), key.as_str())
            invariant
                i <= entries.len(),
                entries@.map_values(|e: (String, String)| (e.0@, e.1@)) == before_entries,
                keys_increase(before_entries),
                forall|j: int| 0 <= j < i ==> lex_lt((#[trigger] before_entries[j]).0, key@),
            decreases entries.len() - i,
        {
            i += 1;
        }
        let found = i < entries.len() && equal(entries[i].0.as_str(), key.as_str());
        let ghost entry: TagModel = (key@, value@);
        proof {
            lemma_increasing_keys_distinct(before_entries);
        }
        if found {
            let before = entries[i].1.clone();
            proof {
                lemma_mapping_at(before_entries, i as int);
                assert(entries@.update(i as int, (key, value)).map_values(|e: (String, String)| (e.0@, e.1@))
                    =~= before_entries.update(i as int, entry));
                lemma_update_mapping(before_entries, i as int, value@);
                lemma_update_keeps_order(before_entries, i as int, value@);
            }
            entries.set(i, (key, value));
            self.entries = entries;
            Some(before)
        } else {
            proof {
                assert(entries@.insert(i as int, (key, value)).map_values(|e: (String, String)| (e.0@, e.1@))
                    =~= before_entries.insert(i as int, entry));
                if i < before_entries.len() {
                    lemma_lex_total(before_entries[i as int].0, key@);
                }
                assert forall|j: int| i <= j < before_entries.len() implies lex_lt(
                    key@,
                    (#[trigger] before_entries[j]).0,
                ) by {
                    if j > i {
                        assert(lex_lt(before_entries[i as int].0, before_entries[j].0));
                        lemma_lex_transitive(key@, before_entries[i as int].0, before_entries[j].0);
                    }
                }
                lemma_insert_keeps_order(before_entries, i as int, entry);
                lemma_insert_mapping(before_entries, i as int, entry);
            }
            entries.insert(i, (key, value));
            self.entries = entries;
            None
        }
    }

    /// A copy of these tags.
    pub fn duplicate(&self) -> (copy: Tags)
        ensures
            copy.entries() == self.entries(),
            copy@ == self@,
    {
        proof {
            use_type_invariant(self);
        }
        let mut entries: Vec<(String, String)> = Vec::new();
        let mut i: usize = 0;
        while i < self.entries.len()
            invariant
                i <= self.entries.len(),
                entries.len() == i,
                self.entries().len() == self.entries.len(),
                entries@.map_values(|e: (String, String)| (e.0@, e.1@)) == self.entries().take(i as int),
            decreases self.entries.len() - i,
        {
            let ghost sofar = entries@;
            let key = self.entries[i].0.clone();
            let value = self.entries[i].1.clone();
            entries.push((key, value));
            assert(entries@.map_values(|e: (String, String)| (e.0@, e.1@)) =~= self.entries().take(i + 1)) by {
                let mapped = entries@.map_values(|e: (String, String)| (e.0@, e.1@));
                let wanted = self.entries().take(i + 1);
                assert(mapped.len() == wanted.len());
                assert forall|j: int| 0 <= j < mapped.len() implies mapped[j] == wanted[j] by {
                    if j < i {
                        assert(entries@[j] == sofar[j]);
                        assert(sofar.map_values(|e: (String, String)| (e.0@, e.1@))[j] == self.entries().take(
                            i as int,
                        )[j]);
                    }
                }
            }
            i += 1;
        }
        assert(self.entries().take(i as int) =~= self.entries());
        Tags { entries }
    }
}

impl Clone for Tags {
    fn clone(&self) -> (copy: Tags)
        ensures
            copy.entries() == self.entries(),
            copy@ == self@,
    {
        self.duplicate()
    }
}

} // verus!
