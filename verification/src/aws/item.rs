//! Items of the table: attribute values, the attributes of one item under
//! their names, and what is handed to the table to get, put or delete one.

use crate::assoc::{
    keys_distinct, keys_increase, lemma_empty_mapping, lemma_increasing_keys_distinct,
    lemma_insert_keeps_order, lemma_insert_mapping, lemma_mapping_at, lemma_update_keeps_order,
    lemma_update_mapping, mapping_of,
};
use crate::string::{equal, lemma_lex_total, lemma_lex_transitive, less_than, lex_lt};
use vstd::prelude::*;

verus! {

/// One attribute value by its characters: a string, a number in digits, or a
/// set of strings.
pub struct AttributeModel {
    pub s: Option<Seq<char>>,
    pub n: Option<Seq<char>>,
    pub ss: Option<Seq<Seq<char>>>,
}

/// The attributes of one item, each under its name.
pub type ItemModel = Map<Seq<char>, AttributeModel>;

/// The strings of `texts` by their characters.
pub open spec fn texts_of(texts: Seq<String>) -> Seq<Seq<char>> {
    texts.map_values(|text: String| text@)
}

/// One attribute value: a string (`s`), a number in digits (`n`), or a set of
/// strings (`ss`).
#[derive(Debug, Clone, PartialEq, Eq)]
pub struct AttributeValue {
    pub s: Option<String>,
    pub n: Option<String>,
    pub ss: Option<Vec<String>>,
}

impl View for AttributeValue {
    type V = AttributeModel;

    open spec fn view(&self) -> AttributeModel {
        AttributeModel {
            s: match self.s {
                Some(text) => Some(text@),
                None => None,
            },
            n: match self.n {
                Some(text) => Some(text@),
                None => None,
            },
            ss: match self.ss {
                Some(texts) => Some(texts_of(texts@)),
                None => None,
            },
        }
    }
}

impl AttributeValue {
    /// The string `text`.
    pub fn string(text: String) -> (value: AttributeValue)
        ensures
            value@ == (AttributeModel { s: Some(text@), n: None, ss: None }),
    {
        AttributeValue { s: Some(text), n: None, ss: None }
    }

    /// The number that `digits` spell.
    pub fn number(digits: String) -> (value: AttributeValue)
        ensures
            value@ == (AttributeModel { s: None, n: Some(digits@), ss: None }),
    {
        AttributeValue { s: None, n: Some(digits), ss: None }
    }

    /// The set of the strings `texts`.
    pub fn string_set(texts: Vec<String>) -> (value: AttributeValue)
        ensures
            value@ == (AttributeModel { s: None, n: None, ss: Some(texts_of(texts@)) }),
    {
        AttributeValue { s: None, n: None, ss: Some(texts) }
    }

    /// A copy of this value.
    pub fn duplicate(&self) -> (copy: AttributeValue)
        ensures
            copy@ == self@,
    {
        let s = match &self.s {
            Some(text) => Some(text.clone()),
            None => None,
        };
        let n = match &self.n {
            Some(text) => Some(text.clone()),
            None => None,
        };
        let ss = match &self.ss {
            Some(texts) => {
                let mut copies: Vec<String> = Vec::new();
                let mut i: usize = 0;
                while i < texts.len()
                    invariant
                        i <= texts.len(),
                        copies.len() == i,
                        forall|j: int| 0 <= j < i ==> #[trigger] copies@[j] == texts@[j],
                    decreases texts.len() - i,
                {
                    copies.push(texts[i].clone());
                    i += 1;
                }
                assert(texts_of(copies@) =~= texts_of(texts@));
                Some(copies)
            },
            None => None,
        };
        AttributeValue { s, n, ss }
    }
}

/// The attributes of `entries` by their characters.
pub open spec fn attributes_of(entries: Seq<(String, AttributeValue)>) -> Seq<(Seq<char>, AttributeModel)> {
    entries.map_values(|e: (String, AttributeValue)| (e.0@, e.1@))
}

/// The attributes of one item. No name occurs twice; the attributes are
/// kept in the order of their names, so that two items hold the same
/// attributes exactly if they are equal.
#[derive(Debug, PartialEq, Eq)]
pub struct Item {
    attributes: Vec<(String, AttributeValue)>,
}

impl View for Item {
    type V = ItemModel;

    closed spec fn view(&self) -> ItemModel {
        mapping_of(attributes_of(self.attributes@))
    }
}

impl Item {
    #[verifier::type_invariant]
    spec fn names_increase(&self) -> bool {
        keys_increase(attributes_of(self.attributes@))
    }

    /// The item without attributes.
    pub fn new() -> (item: Item)
        ensures
            item@ == Map::<Seq<char>, AttributeModel>::empty(),
    {
        let item = Item { attributes: Vec::new() };
        proof {
            lemma_empty_mapping::<AttributeModel>();
            assert(attributes_of(item.attributes@) =~= Seq::<(Seq<char>, AttributeModel)>::empty());
        }
        item
    }

    /// The attribute under `name`, if there is one.
    pub fn get(&self, name: &str) -> (value: Option<&AttributeValue>)
        ensures
            value is Some <==> self@.contains_key(name@),
            value matches Some(found) ==> found@ == self@[name@],
    {
        proof {
            use_type_invariant(self);
            lemma_increasing_keys_distinct(attributes_of(self.attributes@));
        }
        let mut i: usize = 0;
        while i < self.attributes.len()
            invariant
                i <= self.attributes.len(),
                keys_distinct(attributes_of(self.attributes@)),
                forall|j: int| 0 <= j < i ==> (#[trigger] attributes_of(self.attributes@)[j]).0 != name@,
            decreases self.attributes.len() - i,
        {
            if equal(self.attributes[i].0.as_str(), name) {
                proof {
                    lemma_mapping_at(attributes_of(self.attributes@), i as int);
                }
                return Some(&self.attributes[i].1);
            }
            i += 1;
        }
        None
    }

    /// Puts `value` under `name`, in place of what was there.
    pub fn insert(&mut self, name: String, value: AttributeValue)
        ensures
            final(self)@ == old(self)@.insert(name@, value@),
    {
        proof {
            use_type_invariant(&*self);
        }
        let mut attributes: Vec<(String, AttributeValue)> = Vec::new();
        std::mem::swap(&mut self.attributes, &mut attributes);
        let ghost before = attributes_of(attributes@);
        let mut i: usize = 0;
        while i < attributes.len() && less_than(attributes[i].0.as_str(), name.as_str())
            invariant
                i <= attributes.len(),
                attributes_of(attributes@) == before,
                forall|j: int| 0 <= j < i ==> lex_lt((#[trigger] before[j]).0, name@),
            decreases attributes.len() - i,
        {
            i += 1;
        }
        let found = i < attributes.len() && equal(attributes[i].0.as_str(), name.as_str());
        let ghost entry = (name@, value@);
        proof {
            lemma_increasing_keys_distinct(before);
        }
        if found {
            proof {
                assert(attributes_of(attributes@.update(i as int, (name, value))) =~= before.update(i as int, entry));
                lemma_update_mapping(before, i as int, value@);
                lemma_update_keeps_order(before, i as int, value@);
            }
            attributes.set(i, (name, value));
        } else {
            proof {
                assert(attributes_of(attributes@.insert(i as int, (name, value))) =~= before.insert(i as int, entry));
                if i < before.len() {
                    lemma_lex_total(before[i as int].0, name@);
                }
                assert forall|j: int| i <= j < before.len() implies lex_lt(name@, (#[trigger] before[j]).0) by {
                    if j > i {
                        assert(lex_lt(before[i as int].0, before[j].0));
                        lemma_lex_transitive(name@, before[i as int].0, before[j].0);
                    }
                }
                lemma_insert_keeps_order(before, i as int, entry);
                lemma_insert_mapping(before, i as int, entry);
            }
            attributes.insert(i, (name, value));
        }
        self.attributes = attributes;
    }

    /// The attributes with their names, each name once, in the order of the
    /// names. Together they stand for the item.
    pub fn into_attributes(self) -> (attributes: Vec<(String, AttributeValue)>)
        ensures
            keys_increase(attributes_of(attributes@)),
            keys_distinct(attributes_of(attributes@)),
            mapping_of(attributes_of(attributes@)) == self@,
    {
        proof {
            use_type_invariant(&self);
            lemma_increasing_keys_distinct(attributes_of(self.attributes@));
        }
        self.attributes
    }
}

impl Clone for Item {
    fn clone(&self) -> (copy: Item)
        ensures
            copy@ == self@,
    {
        proof {
            use_type_invariant(self);
        }
        let mut attributes: Vec<(String, AttributeValue)> = Vec::new();
        let mut i: usize = 0;
        while i < self.attributes.len()
            invariant
                i <= self.attributes.len(),
                attributes.len() == i,
                forall|j: int|
                    0 <= j < i ==> (#[trigger] attributes_of(attributes@)[j]) == attributes_of(self.attributes@)[j],
            decreases self.attributes.len() - i,
        {
            let ghost before = attributes@;
            let name = self.attributes[i].0.clone();
            let value = self.attributes[i].1.duplicate();
            attributes.push((name, value));
            assert forall|j: int| 0 <= j < i + 1 implies (#[trigger] attributes_of(attributes@)[j]) == attributes_of(
                self.attributes@,
            )[j] by {
                if j < i {
                    assert(attributes@[j] == before[j]);
                    assert(attributes_of(before)[j] == attributes_of(self.attributes@)[j]);
                }
            }
            i += 1;
        }
        assert(attributes_of(attributes@) =~= attributes_of(self.attributes@));
        Item { attributes }
    }
}

/// What is handed to the table to get one item.
#[derive(Debug, PartialEq, Eq)]
pub struct GetItemInput {
    /// `Some(true)` asks for a strongly consistent read.
    pub consistent_read: Option<bool>,
    pub key: Item,
    pub table_name: String,
}

/// What is handed to the table to put one item, on a condition.
#[derive(Debug, PartialEq, Eq)]
pub struct PutItemInput {
    pub item: Item,
    /// The condition on the item that the table holds now.
    pub condition_expression: Option<String>,
    /// The values that the condition names.
    pub expression_attribute_values: Option<Item>,
    pub table_name: String,
}

/// What is handed to the table to delete one item.
#[derive(Debug, PartialEq, Eq)]
pub struct DeleteItemInput {
    pub key: Item,
    pub table_name: String,
}

} // verus!
