//! A queue in one row of the table: the participants as JSON texts in a set
//! of strings, the row and its encoding, and the decisions of each operation
//! between two calls of the table.

use crate::aws::call::{Call, Event};
use crate::aws::error::{ErrorKind, ErrorModel, ServiceError};
use crate::aws::item::{
    texts_of, AttributeValue, DeleteItemInput, GetItemInput, Item, ItemModel, PutItemInput,
};
use crate::aws::json::{
    json_members, json_string, member, member_of, members, members_of, quoted, FieldModel, JsonField,
};
use crate::aws::number::{decimal, to_decimal};
use crate::aws::row::{
    after_put, asks_read, asks_wait, condition, condition_attributes, condition_values, delete_input,
    get_input, is_conditional_failure, key_model, number_in, numbers_refused, read_number, read_text,
    row_attributes, row_model, row_refused, string_set_model, text_in, version_condition, PutVerdict,
};
use crate::model::{
    empty_queue, index_of, is_member, join_changes, joined, leave_changes, left, lemma_index_of,
    lemma_index_of_first, lemma_join_idempotent, ticket_at, ticket_of, tickets_of, PositionModel,
    QueueModel,
};
use crate::string::equal;
use crate::tags::{entries_of, TagModel, Tags};
use crate::{ticket_models, FencingToken, Ticket};
use vstd::prelude::*;
use vstd::string::*;

verus! {

/// The tags that the members of a JSON object stand for: each member must
/// hold a string, and of two members of one name the later one counts.
/// `None` where a member holds something else.
pub open spec fn tags_in(members: Seq<(Seq<char>, Option<Seq<char>>)>) -> Option<Map<Seq<char>, Seq<char>>>
    decreases members.len(),
{
    if members.len() == 0 {
        Some(Map::empty())
    } else {
        match (tags_in(members.drop_last()), members.last().1) {
            (Some(tags), Some(value)) => Some(tags.insert(members.last().0, value)),
            _ => None,
        }
    }
}

/// The participant that the members of a JSON object stand for:
/// `process_id` must hold a string and `counter` a number of 64 bits; `tags`,
/// where it is there, must hold an object of strings. Other members are
/// passed over. `None` where the members stand for no participant.
pub open spec fn position_in(members: Seq<(Seq<char>, FieldModel)>) -> Option<PositionModel> {
    match (member_of(members, "process_id"@), member_of(members, "counter"@), member_of(members, "tags"@)) {
        (Some(FieldModel::Text(process_id)), Some(FieldModel::Number(Some(counter))), None) => Some(
            PositionModel { process_id, counter, tags: Map::empty() },
        ),
        (
            Some(FieldModel::Text(process_id)),
            Some(FieldModel::Number(Some(counter))),
            Some(FieldModel::Object(inner)),
        ) => match tags_in(inner) {
            Some(tags) => Some(PositionModel { process_id, counter, tags }),
            None => None,
        },
        _ => None,
    }
}

/// The participant that the JSON text `text` stands for, if it stands for
/// one.
pub open spec fn position_read(text: Seq<char>) -> Option<PositionModel> {
    match json_members(text) {
        Some(members) => position_in(members),
        None => None,
    }
}

/// The participants that the JSON texts `texts` stand for, in the order of
/// the texts; `None` where one of the texts stands for none.
pub open spec fn positions_read(texts: Seq<Seq<char>>) -> Option<Seq<PositionModel>>
    decreases texts.len(),
{
    if texts.len() == 0 {
        Some(Seq::empty())
    } else {
        match (positions_read(texts.drop_last()), position_read(texts.last())) {
            (Some(positions), Some(position)) => Some(positions.push(position)),
            _ => None,
        }
    }
}

/// The first index of `items` with a sequence number above `counter`;
/// `items.len()` where there is none.
pub open spec fn first_above(items: Seq<PositionModel>, counter: u64) -> int
    decreases items.len(),
{
    if items.len() == 0 {
        0
    } else if items[0].counter > counter {
        0
    } else {
        1 + first_above(items.drop_first(), counter)
    }
}

/// `items` in the order of their sequence numbers, smallest first; items of
/// one sequence number stay in the order in which they stood.
pub open spec fn by_counter(items: Seq<PositionModel>) -> Seq<PositionModel>
    decreases items.len(),
{
    if items.len() == 0 {
        Seq::empty()
    } else {
        let sorted = by_counter(items.drop_last());
        sorted.insert(first_above(sorted, items.last().counter), items.last())
    }
}

/// The sequence numbers of `items` never fall from the front.
pub open spec fn counters_never_fall(items: Seq<PositionModel>) -> bool {
    forall|i: int, j: int| 0 <= i <= j < items.len() ==> (#[trigger] items[i]).counter <= (#[trigger] items[j]).counter
}

/// `first_above` is an index of the list or its length; before it stand the
/// numbers up to `counter`, and at it a greater one.
pub proof fn lemma_first_above(items: Seq<PositionModel>, counter: u64)
    ensures
        0 <= first_above(items, counter) <= items.len(),
        forall|i: int| 0 <= i < first_above(items, counter) ==> (#[trigger] items[i]).counter <= counter,
        first_above(items, counter) < items.len() ==> items[first_above(items, counter)].counter > counter,
    decreases items.len(),
{
    if items.len() > 0 && items[0].counter <= counter {
        let tail = items.drop_first();
        lemma_first_above(tail, counter);
        assert forall|i: int| 0 <= i < first_above(items, counter) implies (#[trigger] items[i]).counter
            <= counter by {
            if i > 0 {
                assert(tail[i - 1].counter <= counter);
            }
        }
    }
}

/// Ordering by sequence number keeps every participant, each as often as it
/// stood in the list, and the numbers of the result never fall.
pub proof fn lemma_by_counter(items: Seq<PositionModel>)
    ensures
        by_counter(items).len() == items.len(),
        by_counter(items).to_multiset() == items.to_multiset(),
        counters_never_fall(by_counter(items)),
    decreases items.len(),
{
    broadcast use vstd::seq_lib::group_to_multiset_ensures;

    if items.len() == 0 {
    } else {
        let init = items.drop_last();
        let last = items.last();
        lemma_by_counter(init);
        let sorted = by_counter(init);
        lemma_first_above(sorted, last.counter);
        let at = first_above(sorted, last.counter);
        let after = sorted.insert(at, last);
        assert(items =~= init.push(last));
        assert(after.to_multiset() =~= sorted.to_multiset().insert(last));
        assert forall|i: int, j: int| 0 <= i <= j < after.len() implies (#[trigger] after[i]).counter <= (
        #[trigger] after[j]).counter by {
            let x = if i < at { i } else { i - 1 };
            let y = if j < at { j } else { j - 1 };
            if i != at && j != at {
                assert(sorted[x].counter <= sorted[y].counter);
            } else if i == at && j != at {
                assert(sorted[at].counter <= sorted[y].counter);
            } else if j == at && i != at {
                assert(sorted[x].counter <= last.counter);
            }
        }
    }
}

/// A list whose sequence numbers strictly increase is in order already.
pub proof fn lemma_by_counter_of_increasing(items: Seq<PositionModel>)
    requires
        crate::model::counters_increase(items),
    ensures
        by_counter(items) == items,
    decreases items.len(),
{
    if items.len() > 0 {
        let init = items.drop_last();
        assert forall|i: int, j: int| 0 <= i < j < init.len() implies (#[trigger] init[i]).counter < (
        #[trigger] init[j]).counter by {
            assert(items[i].counter < items[j].counter);
        }
        lemma_by_counter_of_increasing(init);
        lemma_first_above(init, items.last().counter);
        let at = first_above(init, items.last().counter);
        if at < init.len() {
            assert(items[at].counter < items[items.len() - 1].counter);
        }
        assert(init.insert(init.len() as int, items.last()) =~= items);
    }
}

/// One tag between the braces of `tags`: its key and its value, both as
/// JSON strings already, with a colon between them.
pub open spec fn framed_tag(tag: (Seq<char>, Seq<char>)) -> Seq<char> {
    tag.0 + ":"@ + tag.1
}

/// The tags between the braces of `tags`, with commas between them.
pub open spec fn framed_tags(tags: Seq<(Seq<char>, Seq<char>)>) -> Seq<char>
    decreases tags.len(),
{
    if tags.len() == 0 {
        Seq::empty()
    } else if tags.len() == 1 {
        framed_tag(tags[0])
    } else {
        framed_tags(tags.drop_last()) + ","@ + framed_tag(tags.last())
    }
}

/// The JSON object of a participant, with no blanks: `process_id`, `counter`
/// and `tags`, in this order. The name and the tags are JSON strings already.
pub open spec fn framed(process_id: Seq<char>, counter: u64, tags: Seq<(Seq<char>, Seq<char>)>) -> Seq<char> {
    "{\"process_id\":"@ + process_id + ",\"counter\":"@ + decimal(counter as nat) + ",\"tags\":{"@ + framed_tags(tags)
        + "}}"@
}

/// The tags `entries`, key and value each as a JSON string.
pub open spec fn quoted_tags(entries: Seq<TagModel>) -> Seq<(Seq<char>, Seq<char>)> {
    entries.map_values(|tag: TagModel| (json_string(tag.0), json_string(tag.1)))
}

/// The JSON text of a participant: `{"process_id":"..","counter":N,"tags":{..}}`
/// with no blanks, the tags in the order of their keys.
pub open spec fn position_text(process_id: Seq<char>, counter: u64, entries: Seq<TagModel>) -> Seq<char> {
    framed(json_string(process_id), counter, quoted_tags(entries))
}

/// The strings of `pairs` by their characters.
pub open spec fn pairs_of(pairs: Seq<(String, String)>) -> Seq<(Seq<char>, Seq<char>)> {
    pairs.map_values(|pair: (String, String)| (pair.0@, pair.1@))
}

/// Puts the JSON object of a participant together from its name and its
/// tags, which are JSON strings already, and its sequence number.
pub fn frame(process_id: &str, counter: u64, tags: &Vec<(String, String)>) -> (text: String)
    ensures
        text@ == framed(process_id@, counter, pairs_of(tags@)),
{
    let mut text = "{\"process_id\":".to_owned();
    text.append(process_id);
    text.append(",\"counter\":");
    text.append(to_decimal(counter).as_str());
    text.append(",\"tags\":{");
    let ghost head = text@;
    let ghost pairs = pairs_of(tags@);
    let mut i: usize = 0;
    assert(pairs.take(0) =~= Seq::<(Seq<char>, Seq<char>)>::empty());
    while i < tags.len()
        invariant
            i <= tags.len(),
            pairs == pairs_of(tags@),
            text@ == head + framed_tags(pairs.take(i as int)),
        decreases tags.len() - i,
    {
        let ghost before = text@;
        let ghost longer = pairs.take(i + 1);
        assert(longer.drop_last() =~= pairs.take(i as int));
        assert(longer.last() == pairs[i as int]);
        if i > 0 {
            text.append(",");
        }
        text.append(tags[i].0.as_str());
        text.append(":");
        text.append(tags[i].1.as_str());
        assert(text@ =~= head + framed_tags(longer)) by {
            if i == 0 {
                assert(longer[0] == pairs[0]);
                assert(framed_tags(pairs.take(0)) =~= Seq::<char>::empty());
            }
        }
        i += 1;
    }
    assert(pairs.take(i as int) =~= pairs);
    text.append("}}");
    assert(text@ =~= framed(process_id@, counter, pairs));
    text
}

/// A participant as the row keeps it.
#[derive(Debug, Clone, PartialEq)]
pub struct QueuePosition {
    pub process_id: String,
    pub counter: u64,
    pub tags: Tags,
}

impl View for QueuePosition {
    type V = PositionModel;

    open spec fn view(&self) -> PositionModel {
        PositionModel { process_id: self.process_id@, counter: self.counter, tags: self.tags@ }
    }
}

/// The participants of `items`, each as the model has it.
pub open spec fn positions_of(items: Seq<QueuePosition>) -> Seq<PositionModel> {
    items.map_values(|p: QueuePosition| p@)
}

/// The JSON text of the participant `position`.
pub open spec fn position_json(position: PositionModel) -> Seq<char> {
    position_text(position.process_id, position.counter, entries_of(position.tags))
}

/// The JSON texts of `items`, in their order.
pub open spec fn texts_of_positions(items: Seq<PositionModel>) -> Seq<Seq<char>> {
    items.map_values(|p: PositionModel| position_json(p))
}

/// Where a text among the first ones stands for no participant, the texts
/// as a whole stand for none.
pub proof fn lemma_positions_read_prefix(texts: Seq<Seq<char>>, count: int)
    requires
        0 <= count <= texts.len(),
        positions_read(texts.take(count)) is None,
    ensures
        positions_read(texts) is None,
    decreases texts.len() - count,
{
    if count < texts.len() {
        assert(texts.take(count + 1).drop_last() =~= texts.take(count));
        lemma_positions_read_prefix(texts, count + 1);
    } else {
        assert(texts.take(count) =~= texts);
    }
}

impl QueuePosition {
    pub fn new(process_id: String, counter: u64, tags: Tags) -> (position: QueuePosition)
        ensures
            position.process_id == process_id,
            position.counter == counter,
            position.tags == tags,
    {
        QueuePosition { process_id, counter, tags }
    }

    /// A copy of this participant.
    pub fn duplicate(&self) -> (copy: QueuePosition)
        ensures
            copy@ == self@,
    {
        QueuePosition { process_id: self.process_id.clone(), counter: self.counter, tags: self.tags.clone() }
    }

    /// The participant as JSON. The name and the tags are written as JSON
    /// strings by `serde_json`; every participant can be written.
    pub fn to_string(&self) -> (written: Result<String, ErrorKind>)
        ensures
            written matches Ok(text) && text@ == position_json(self@),
    {
        let process_id = quoted(self.process_id.as_str())?;
        let mut tags: Vec<(String, String)> = Vec::new();
        let count = self.tags.len();
        let mut i: usize = 0;
        while i < count
            invariant
                i <= count,
                count == self.tags.entries().len(),
                tags.len() == i,
                pairs_of(tags@) == quoted_tags(self.tags.entries()).take(i as int),
            decreases count - i,
        {
            let ghost before = tags@;
            let key = quoted(self.tags.key_at(i).as_str())?;
            let value = quoted(self.tags.value_at(i).as_str())?;
            tags.push((key, value));
            assert(pairs_of(tags@) =~= quoted_tags(self.tags.entries()).take(i + 1)) by {
                let wanted = quoted_tags(self.tags.entries()).take(i + 1);
                assert forall|j: int| 0 <= j < wanted.len() implies pairs_of(tags@)[j] == wanted[j] by {
                    if j < i {
                        assert(tags@[j] == before[j]);
                        assert(pairs_of(before)[j] == quoted_tags(self.tags.entries()).take(i as int)[j]);
                    }
                }
            }
            i += 1;
        }
        assert(quoted_tags(self.tags.entries()).take(i as int) =~= quoted_tags(self.tags.entries()));
        Ok(frame(process_id.as_str(), self.counter, &tags))
    }

    /// The JSON texts of `positions`, in their order.
    pub fn to_string_vec(positions: &Vec<QueuePosition>) -> (written: Result<Vec<String>, ErrorKind>)
        ensures
            written matches Ok(texts) && crate::aws::item::texts_of(texts@) == texts_of_positions(
                positions_of(positions@),
            ),
    {
        let mut result: Vec<String> = Vec::new();
        let mut i: usize = 0;
        while i < positions.len()
            invariant
                i <= positions.len(),
                result.len() == i,
                crate::aws::item::texts_of(result@) == texts_of_positions(positions_of(positions@)).take(i as int),
            decreases positions.len() - i,
        {
            let ghost before = result@;
            let text = positions[i].to_string()?;
            result.push(text);
            assert(crate::aws::item::texts_of(result@) =~= texts_of_positions(positions_of(positions@)).take(i + 1)) by {
                let wanted = texts_of_positions(positions_of(positions@)).take(i + 1);
                assert forall|j: int| 0 <= j < wanted.len() implies crate::aws::item::texts_of(result@)[j]
                    == wanted[j] by {
                    if j < i {
                        assert(result@[j] == before[j]);
                        assert(crate::aws::item::texts_of(before)[j] == texts_of_positions(
                            positions_of(positions@),
                        ).take(i as int)[j]);
                    }
                }
            }
            i += 1;
        }
        assert(texts_of_positions(positions_of(positions@)).take(i as int) =~= texts_of_positions(
            positions_of(positions@),
        ));
        Ok(result)
    }

    /// The tags that the members of a JSON object stand for.
    fn tags_from_members(members: &Vec<(String, Option<String>)>) -> (tags: Option<Tags>)
        ensures
            match tags {
                Some(found) => tags_in(crate::aws::json::inner_members_of(members@)) == Some(found@),
                None => tags_in(crate::aws::json::inner_members_of(members@)) is None,
            },
    {
        let ghost model = crate::aws::json::inner_members_of(members@);
        let mut tags = Tags::new();
        let mut i: usize = 0;
        assert(model.take(0) =~= Seq::<(Seq<char>, Option<Seq<char>>)>::empty());
        while i < members.len()
            invariant
                i <= members.len(),
                model == crate::aws::json::inner_members_of(members@),
                tags_in(model.take(i as int)) == Some(tags@),
            decreases members.len() - i,
        {
            assert(model.take(i + 1).drop_last() =~= model.take(i as int));
            assert(model.take(i + 1).last() == model[i as int]);
            match &members[i].1 {
                Some(value) => {
                    tags.insert(members[i].0.clone(), value.clone());
                },
                None => {
                    proof {
                        lemma_tags_in_prefix(model, i + 1);
                    }
                    return None;
                },
            }
            i += 1;
        }
        assert(model.take(i as int) =~= model);
        Some(tags)
    }

    /// The participant that the members of a JSON object stand for; a JSON
    /// error where they stand for none.
    pub fn from_members(members: &Vec<(String, JsonField)>) -> (read: Result<QueuePosition, ErrorKind>)
        ensures
            match read {
                Ok(position) => position_in(members_of(members@)) == Some(position@),
                Err(error) => error@ == ErrorModel::Json && position_in(members_of(members@)) is None,
            },
    {
        let process_id = match member(members, "process_id") {
            Some(JsonField::Text(text)) => text.clone(),
            _ => {
                return Err(ErrorKind::Json("process_id: no string".to_owned()));
            },
        };
        let counter: u64 = match member(members, "counter") {
            Some(JsonField::Number(Some(number))) => *number,
            _ => {
                return Err(ErrorKind::Json("counter: no number of 64 bits".to_owned()));
            },
        };
        let tags = match member(members, "tags") {
            None => Tags::new(),
            Some(JsonField::Object(inner)) => match QueuePosition::tags_from_members(inner) {
                Some(tags) => tags,
                None => {
                    return Err(ErrorKind::Json("tags: a value that is no string".to_owned()));
                },
            },
            Some(_) => {
                return Err(ErrorKind::Json("tags: no object".to_owned()));
            },
        };
        Ok(QueuePosition { process_id, counter, tags })
    }

    /// The participant that the JSON text `s` stands for. Reading JSON is
    /// `serde_json`'s work; a JSON error where the text is no JSON object or
    /// its members stand for no participant.
    pub fn from_str(s: &str) -> (read: Result<QueuePosition, ErrorKind>)
        ensures
            match read {
                Ok(position) => position_read(s@) == Some(position@),
                Err(error) => error@ == ErrorModel::Json && position_read(s@) is None,
            },
    {
        let found = members(s)?;
        QueuePosition::from_members(&found)
    }

    /// The participants that the JSON texts `strs` stand for, in the order
    /// of their sequence numbers; a JSON error where one of the texts stands
    /// for none.
    pub fn from_vec(strs: &Vec<String>) -> (read: Result<Vec<QueuePosition>, ErrorKind>)
        ensures
            match read {
                Ok(positions) => match positions_read(crate::aws::item::texts_of(strs@)) {
                    Some(found) => positions_of(positions@) == by_counter(found),
                    None => false,
                },
                Err(error) => error@ == ErrorModel::Json && positions_read(crate::aws::item::texts_of(strs@))
                    is None,
            },
    {
        let ghost texts = crate::aws::item::texts_of(strs@);
        let ghost mut found: Seq<PositionModel> = Seq::empty();
        let mut result: Vec<QueuePosition> = Vec::new();
        let mut i: usize = 0;
        assert(texts.take(0) =~= Seq::<Seq<char>>::empty());
        assert(positions_of(result@) =~= by_counter(found));
        while i < strs.len()
            invariant
                i <= strs.len(),
                texts == crate::aws::item::texts_of(strs@),
                positions_read(texts.take(i as int)) == Some(found),
                found.len() == i,
                positions_of(result@) == by_counter(found),
            decreases strs.len() - i,
        {
            assert(texts.take(i + 1).drop_last() =~= texts.take(i as int));
            assert(texts.take(i + 1).last() == strs@[i as int]@);
            let position = match QueuePosition::from_str(strs[i].as_str()) {
                Ok(position) => position,
                Err(error) => {
                    proof {
                        lemma_positions_read_prefix(texts, i + 1);
                    }
                    return Err(error);
                },
            };
            let ghost sorted = positions_of(result@);
            proof {
                lemma_by_counter(found);
                lemma_first_above(sorted, position.counter);
            }
            let mut at: usize = 0;
            while at < result.len() && result[at].counter <= position.counter
                invariant
                    at <= result.len(),
                    sorted == positions_of(result@),
                    forall|j: int| 0 <= j < at ==> (#[trigger] sorted[j]).counter <= position.counter,
                decreases result.len() - at,
            {
                at += 1;
            }
            assert(at == first_above(sorted, position.counter)) by {
                let fa = first_above(sorted, position.counter);
                if at < fa {
                    assert(sorted[at as int].counter <= position.counter);
                } else if fa < at {
                    assert(sorted[fa].counter <= position.counter);
                }
            }
            proof {
                let longer = found.push(position@);
                assert(longer.drop_last() =~= found);
                assert(positions_of(result@.insert(at as int, position)) =~= sorted.insert(at as int, position@));
                found = longer;
            }
            result.insert(at, position);
            i += 1;
        }
        assert(texts.take(i as int) =~= texts);
        Ok(result)
    }
}

/// Where a member among the first ones holds no string, the members as a
/// whole stand for no tags.
pub proof fn lemma_tags_in_prefix(members: Seq<(Seq<char>, Option<Seq<char>>)>, count: int)
    requires
        0 <= count <= members.len(),
        tags_in(members.take(count)) is None,
    ensures
        tags_in(members) is None,
    decreases members.len() - count,
{
    if count < members.len() {
        assert(members.take(count + 1).drop_last() =~= members.take(count));
        lemma_tags_in_prefix(members, count + 1);
    } else {
        assert(members.take(count) =~= members);
    }
}

/// The kind of a queue's row.
pub const QUEUE_TYPE: &'static str = "QUEUE";

/// The row of a queue by its characters: its name and its state. The
/// version is the one that the table holds.
pub struct QueueRowModel {
    pub id: Seq<char>,
    pub queue: QueueModel,
}

/// The row of a queue.
#[derive(Debug, Clone, PartialEq)]
pub struct QueueRow {
    pub id: String,
    /// The version that the table held when the row was read; 0 for a row
    /// that is not there yet.
    pub version: u64,
    /// The sequence number given last.
    pub value: u64,
    /// The participants from the front of the queue.
    pub items: Vec<QueuePosition>,
}

impl View for QueueRow {
    type V = QueueRowModel;

    open spec fn view(&self) -> QueueRowModel {
        QueueRowModel {
            id: self.id@,
            queue: QueueModel { items: positions_of(self.items@), version: self.version, value: self.value },
        }
    }
}

/// The participants that an item holds under `Items`, in the order of their
/// sequence numbers: none where the attribute is not there;
/// `MissingAttribute` where it holds no set of strings; a JSON error where
/// one of the strings stands for no participant.
pub open spec fn items_in(item: ItemModel) -> Result<Seq<PositionModel>, ErrorModel> {
    if !item.contains_key("Items"@) {
        Ok(Seq::empty())
    } else {
        match item["Items"@].ss {
            None => Err(ErrorModel::MissingAttribute),
            Some(texts) => match positions_read(texts) {
                Some(found) => Ok(by_counter(found)),
                None => Err(ErrorModel::Json),
            },
        }
    }
}

/// The row of a queue that an item stands for, or why it stands for none:
/// `Type` must hold `QUEUE`; `ID`, `Version` and `Value` must be there; the
/// strings of `Items`, where it is there, must stand for participants; then
/// the name must be a string and the version and the value numbers.
pub open spec fn queue_row_in(item: ItemModel) -> Result<QueueRowModel, ErrorModel> {
    if row_refused(item, QUEUE_TYPE@, ErrorModel::UnrecognisedQueueType) is Some {
        Err(row_refused(item, QUEUE_TYPE@, ErrorModel::UnrecognisedQueueType)->Some_0)
    } else if items_in(item) is Err {
        Err(items_in(item)->Err_0)
    } else if numbers_refused(item) is Some {
        Err(numbers_refused(item)->Some_0)
    } else {
        Ok(
            QueueRowModel {
                id: text_in(item["ID"@])->Ok_0,
                queue: QueueModel {
                    items: items_in(item)->Ok_0,
                    version: number_in(item["Version"@])->Ok_0,
                    value: number_in(item["Value"@])->Ok_0,
                },
            },
        )
    }
}

/// What a read of the table gives: the row, `None` where there is none, or
/// the error of the read.
pub open spec fn queue_row_read(outcome: Result<Option<Item>, ServiceError>) -> Result<
    Option<QueueRowModel>,
    ErrorModel,
> {
    match outcome {
        Err(failure) => Err(ErrorModel::GetItem(failure@)),
        Ok(None) => Ok(None),
        Ok(Some(item)) => match queue_row_in(item@) {
            Ok(row) => Ok(Some(row)),
            Err(error) => Err(error),
        },
    }
}

/// The item that holds the queue `queue` under the name `id`: the row's
/// attributes, and the participants as JSON texts under `Items` where there
/// are any.
pub open spec fn queue_item(id: Seq<char>, queue: QueueModel) -> ItemModel {
    let attributes = row_model(id, QUEUE_TYPE@, queue.version, queue.value);
    if queue.items.len() == 0 {
        attributes
    } else {
        attributes.insert("Items"@, string_set_model(texts_of_positions(queue.items)))
    }
}

/// `put` writes the queue `stored` under the name `id`, on the condition
/// that the table holds the version `version`, or no row.
pub open spec fn puts_queue(put: PutItemInput, table_name: Seq<char>, id: Seq<char>, version: u64, stored: QueueModel) -> bool {
    &&& put.item@ == queue_item(id, stored)
    &&& put.condition_expression matches Some(expression) && expression@ == version_condition()
    &&& put.expression_attribute_values matches Some(values) && values@ == condition_values(version)
    &&& put.table_name@ == table_name
}

/// The queue of a row after its write: the row has the next version.
pub open spec fn written(queue: QueueModel) -> QueueModel {
    QueueModel { items: queue.items, version: (queue.version + 1) as u64, value: queue.value }
}

impl QueueRow {
    /// The row of a queue that nobody has joined yet.
    pub fn new(id: String) -> (row: QueueRow)
        ensures
            row@ == (QueueRowModel { id: id@, queue: crate::model::empty_queue() }),
    {
        let row = QueueRow { id, version: 0, value: 0, items: Vec::new() };
        assert(positions_of(row.items@) =~= Seq::<PositionModel>::empty());
        row
    }

    /// The index at which `process_id` stands, if it is in the queue.
    pub fn find(&self, process_id: &str) -> (found: Option<usize>)
        ensures
            found is Some <==> is_member(self@.queue.items, process_id@),
            found matches Some(index) ==> index == index_of(self@.queue.items, process_id@) && index
                < self.items.len(),
    {
        let ghost items = self@.queue.items;
        let mut i: usize = 0;
        while i < self.items.len()
            invariant
                i <= self.items.len(),
                items == self@.queue.items,
                forall|j: int| 0 <= j < i ==> (#[trigger] items[j]).process_id != process_id@,
            decreases self.items.len() - i,
        {
            if equal(self.items[i].process_id.as_str(), process_id) {
                proof {
                    lemma_index_of_first(items, process_id@, i as int);
                }
                return Some(i);
            }
            i += 1;
        }
        proof {
            lemma_index_of(items, process_id@);
        }
        None
    }

    /// The ticket of the participant at `index`.
    pub fn ticket(&self, index: usize) -> (ticket: Ticket)
        requires
            index < self.items.len(),
        ensures
            ticket@ == ticket_at(self@.queue.items, index as int),
    {
        let item = &self.items[index];
        Ticket::new(item.process_id.clone(), item.counter, index, item.tags.clone())
    }

    /// The tickets of all participants, from the front.
    pub fn tickets(&self) -> (tickets: Vec<Ticket>)
        ensures
            ticket_models(tickets@) == tickets_of(self@.queue.items),
    {
        let mut tickets: Vec<Ticket> = Vec::new();
        let mut i: usize = 0;
        while i < self.items.len()
            invariant
                i <= self.items.len(),
                tickets.len() == i,
                forall|j: int| 0 <= j < i ==> (#[trigger] tickets@[j])@ == ticket_at(self@.queue.items, j),
            decreases self.items.len() - i,
        {
            tickets.push(self.ticket(i));
            i += 1;
        }
        assert(ticket_models(tickets@) =~= tickets_of(self@.queue.items));
        tickets
    }
}

/// A queue in the row `id` of the table `table_name`.
#[derive(Debug, Clone, PartialEq, Eq)]
pub struct Queue {
    pub table_name: String,
    pub id: String,
    /// The time to wait before a refused write is tried again, in
    /// milliseconds.
    pub retry_time: u64,
    /// The bound of the random share on top of `retry_time`, in
    /// milliseconds.
    pub jitter_millis: u64,
}

impl Queue {
    /// The waiting times can be computed: the jitter has a range to choose
    /// from, and the longest wait fits in 64 bits.
    pub open spec fn well_formed(&self) -> bool {
        self.jitter_millis > 0 && self.retry_time + self.jitter_millis <= u64::MAX
    }

    /// A queue in the row `id` of the table `table_name`, with 100
    /// milliseconds of jitter on top of `retry_time`.
    pub fn new(table_name: String, id: String, retry_time: u64) -> (queue: Queue)
        ensures
            queue.table_name == table_name,
            queue.id == id,
            queue.retry_time == retry_time,
            queue.jitter_millis == 100,
    {
        Queue { table_name, id, retry_time, jitter_millis: 100 }
    }

    /// What is handed to the table to read the row. The read need not be
    /// strongly consistent.
    pub fn read_input(&self) -> (input: GetItemInput)
        ensures
            input.consistent_read == Some(false),
            input.key@ == key_model(self.id@),
            input.table_name@ == self.table_name@,
    {
        get_input(self.table_name.as_str(), self.id.as_str(), false)
    }

    /// The row that an item stands for.
    pub fn decode(item: &Item) -> (row: Result<QueueRow, ErrorKind>)
        ensures
            match row {
                Ok(read) => queue_row_in(item@) == Ok::<QueueRowModel, ErrorModel>(read@),
                Err(error) => queue_row_in(item@) == Err::<QueueRowModel, ErrorModel>(error@),
            },
    {
        let kind = match item.get("Type") {
            Some(kind) => kind,
            None => {
                return Err(ErrorKind::MissingAttribute);
            },
        };
        let kind = match &kind.s {
            Some(kind) => kind,
            None => {
                return Err(ErrorKind::MissingAttribute);
            },
        };
        if !equal(kind.as_str(), QUEUE_TYPE) {
            return Err(ErrorKind::UnrecognisedQueueType);
        }
        let id = match item.get("ID") {
            Some(id) => id,
            None => {
                return Err(ErrorKind::MissingAttribute);
            },
        };
        let version = match item.get("Version") {
            Some(version) => version,
            None => {
                return Err(ErrorKind::MissingAttribute);
            },
        };
        let value = match item.get("Value") {
            Some(value) => value,
            None => {
                return Err(ErrorKind::MissingAttribute);
            },
        };
        let items = match item.get("Items") {
            Some(items) => match &items.ss {
                Some(texts) => match QueuePosition::from_vec(texts) {
                    Ok(items) => items,
                    Err(error) => {
                        return Err(error);
                    },
                },
                None => {
                    return Err(ErrorKind::MissingAttribute);
                },
            },
            None => {
                let items: Vec<QueuePosition> = Vec::new();
                assert(positions_of(items@) =~= Seq::<PositionModel>::empty());
                items
            },
        };
        let id = match read_text(id) {
            Ok(id) => id,
            Err(error) => {
                return Err(error);
            },
        };
        let version = match read_number(version) {
            Ok(version) => version,
            Err(error) => {
                return Err(error);
            },
        };
        let value = match read_number(value) {
            Ok(value) => value,
            Err(error) => {
                return Err(error);
            },
        };
        Ok(QueueRow { id, version, value, items })
    }

    /// What a read of the table gives: the row, `None` where there is none,
    /// or the error of the read.
    pub fn read(&self, outcome: Result<Option<Item>, ServiceError>) -> (row: Result<Option<QueueRow>, ErrorKind>)
        ensures
            match row {
                Ok(Some(read)) => queue_row_read(outcome) == Ok::<Option<QueueRowModel>, ErrorModel>(Some(read@)),
                Ok(None) => queue_row_read(outcome) == Ok::<Option<QueueRowModel>, ErrorModel>(None),
                Err(error) => queue_row_read(outcome) == Err::<Option<QueueRowModel>, ErrorModel>(error@),
            },
    {
        match outcome {
            Err(failure) => Err(ErrorKind::GetItem(failure)),
            Ok(None) => Ok(None),
            Ok(Some(item)) => match Queue::decode(&item) {
                Ok(row) => Ok(Some(row)),
                Err(error) => Err(error),
            },
        }
    }

    /// What is handed to the table to write `row`: the row with the version
    /// after the one that was read, on the condition that the table still
    /// holds the version that was read, or no row. `Overflow` where the next
    /// version does not fit in 64 bits, and on no other row.
    pub fn write(&self, row: &QueueRow) -> (input: Result<PutItemInput, ErrorKind>)
        ensures
            match input {
                Ok(put) => row.version < u64::MAX && puts_queue(
                    put,
                    self.table_name@,
                    self.id@,
                    row.version,
                    written(row@.queue),
                ),
                Err(error) => row.version == u64::MAX && error@ == ErrorModel::Overflow,
            },
    {
        if row.version == u64::MAX {
            return Err(ErrorKind::Overflow);
        }
        let mut item = row_attributes(self.id.as_str(), QUEUE_TYPE, row.version + 1, row.value);
        if row.items.len() != 0 {
            let texts = match QueuePosition::to_string_vec(&row.items) {
                Ok(texts) => texts,
                Err(error) => {
                    return Err(error);
                },
            };
            item.insert("Items".to_owned(), AttributeValue::string_set(texts));
        }
        Ok(
            PutItemInput {
                item,
                condition_expression: Some(condition()),
                expression_attribute_values: Some(condition_attributes(row.version)),
                table_name: self.table_name.clone(),
            },
        )
    }

    /// What is handed to the table to delete the row, whatever it holds.
    pub fn remove(&self) -> (input: DeleteItemInput)
        ensures
            input.key@ == key_model(self.id@),
            input.table_name@ == self.table_name@,
    {
        delete_input(self.table_name.as_str(), self.id.as_str())
    }

    /// The version of the row and the ticket of `process_id`, from what a
    /// read of the table gave. `TicketNotFound` where there is no row or the
    /// process is not in it.
    pub fn get_ticket(&self, process_id: &str, outcome: Result<Option<Item>, ServiceError>) -> (result: Result<
        (FencingToken, Ticket),
        ErrorKind,
    >)
        ensures
            match queue_row_read(outcome) {
                Err(error) => result matches Err(found) && found@ == error,
                Ok(None) => result matches Err(found) && found@ == ErrorModel::TicketNotFound(process_id@),
                Ok(Some(row)) => if is_member(row.queue.items, process_id@) {
                    result matches Ok((token, ticket)) && token == row.queue.version && ticket@ == ticket_of(
                        row.queue,
                        process_id@,
                    )
                } else {
                    result matches Err(found) && found@ == ErrorModel::TicketNotFound(process_id@)
                },
            },
    {
        match self.read(outcome) {
            Err(error) => Err(error),
            Ok(None) => Err(ErrorKind::TicketNotFound(process_id.to_owned())),
            Ok(Some(row)) => match row.find(process_id) {
                Some(index) => Ok((row.version, row.ticket(index))),
                None => Err(ErrorKind::TicketNotFound(process_id.to_owned())),
            },
        }
    }

    /// The version of the row and the tickets of all participants, from what
    /// a read of the table gave: version 0 and no tickets where there is no
    /// row.
    pub fn get_tickets(&self, outcome: Result<Option<Item>, ServiceError>) -> (result: Result<
        (FencingToken, Vec<Ticket>),
        ErrorKind,
    >)
        ensures
            match queue_row_read(outcome) {
                Err(error) => result matches Err(found) && found@ == error,
                Ok(None) => result matches Ok((token, tickets)) && token == 0 && tickets@.len() == 0,
                Ok(Some(row)) => result matches Ok((token, tickets)) && token == row.queue.version
                    && ticket_models(tickets@) == tickets_of(row.queue.items),
            },
    {
        match self.read(outcome) {
            Err(error) => Err(error),
            Ok(None) => Ok((0, Vec::new())),
            Ok(Some(row)) => Ok((row.version, row.tickets())),
        }
    }
}

/// Where a join stands.
#[derive(Debug, PartialEq)]
pub enum Join {
    /// Nothing was asked yet.
    Start,
    /// The row was asked for.
    Reading,
    /// The write of the row with the new participant was asked for; once it
    /// is done, this token and this ticket are the result.
    Writing(FencingToken, Ticket),
    /// The write was refused, and a wait was asked for.
    Sleeping,
    /// The token and the ticket, or the error that ended the join.
    Done(Result<(FencingToken, Ticket), ErrorKind>),
}

/// Where a leave stands.
#[derive(Debug, PartialEq)]
pub enum Leave {
    /// Nothing was asked yet.
    Start,
    /// The row was asked for.
    Reading,
    /// The write of the row without the participant was asked for; once it
    /// is done, this token is the result.
    Writing(FencingToken),
    /// The write was refused, and a wait was asked for.
    Sleeping,
    /// The token, or the error that ended the leave.
    Done(Result<FencingToken, ErrorKind>),
}

/// The queue that a read found: the empty queue where there is no row.
pub open spec fn queue_found(read: Option<QueueRowModel>) -> QueueModel {
    match read {
        Some(row) => row.queue,
        None => empty_queue(),
    }
}

impl Queue {
    /// What the step of a join after a read comes to. An error of the read
    /// ends the join. A process that is in the queue gets the version that
    /// was read and the ticket it has. For any other process the write of the
    /// queue with the process at its back is asked for, on the condition that
    /// the row still has the version that was read; but a sequence number or
    /// a version at the end of the 64-bit range ends the join with
    /// `Overflow`. A row that is not there counts as the empty queue.
    pub open spec fn join_after_read(
        &self,
        process_id: Seq<char>,
        tags: Map<Seq<char>, Seq<char>>,
        outcome: Result<Option<Item>, ServiceError>,
        next: (Join, Option<Call>),
    ) -> bool {
        match queue_row_read(outcome) {
            Err(error) => next.0 matches Join::Done(Err(found)) && found@ == error,
            Ok(read) => {
                let queue = queue_found(read);
                if is_member(queue.items, process_id) {
                    next.0 matches Join::Done(Ok((token, ticket))) && token == queue.version && ticket@ == ticket_of(
                        queue,
                        process_id,
                    )
                } else if !join_changes(queue, process_id) {
                    next.0 matches Join::Done(Err(found)) && found@ == ErrorModel::Overflow
                } else {
                    let after = joined(queue, process_id, tags);
                    &&& next.0 matches Join::Writing(token, ticket) && token == after.version && ticket@
                        == ticket_of(after, process_id)
                    &&& next.1 matches Some(Call::PutItem(put)) && puts_queue(
                        put,
                        self.table_name@,
                        self.id@,
                        queue.version,
                        after,
                    )
                }
            },
        }
    }

    /// What the step of a leave after a read comes to. An error of the read
    /// ends the leave, and so does a process that is not in the queue, with
    /// `TicketNotFound`. Else the write of the queue without the process is
    /// asked for, on the condition that the row still has the version that
    /// was read; but a version at the end of the 64-bit range ends the leave
    /// with `Overflow`. A row that is not there counts as the empty queue.
    pub open spec fn leave_after_read(
        &self,
        process_id: Seq<char>,
        outcome: Result<Option<Item>, ServiceError>,
        next: (Leave, Option<Call>),
    ) -> bool {
        match queue_row_read(outcome) {
            Err(error) => next.0 matches Leave::Done(Err(found)) && found@ == error,
            Ok(read) => {
                let queue = queue_found(read);
                if !is_member(queue.items, process_id) {
                    next.0 matches Leave::Done(Err(found)) && found@ == ErrorModel::TicketNotFound(process_id)
                } else if !leave_changes(queue, process_id) {
                    next.0 matches Leave::Done(Err(found)) && found@ == ErrorModel::Overflow
                } else {
                    let after = left(queue, process_id);
                    &&& next.0 == Leave::Writing(after.version)
                    &&& next.1 matches Some(Call::PutItem(put)) && puts_queue(
                        put,
                        self.table_name@,
                        self.id@,
                        queue.version,
                        after,
                    )
                }
            },
        }
    }

    /// One step of a join. The row is read. A process that is in the queue
    /// gets the version that was read and the ticket it has, and nothing is
    /// written. Any other process is put at the back with the next sequence
    /// number and `tags`, and the row is written on the condition that it is
    /// still as it was read; where it is not, the join waits for the retry
    /// time and its jitter and begins again with the read, as often as it
    /// takes. A row that is not there counts as the empty queue with version
    /// 0. Any other error ends the join, and so does a sequence number or a
    /// version at the end of the 64-bit range, with `Overflow`. A state that
    /// is `Done` stays; an event that does not answer the call that was asked
    /// for ends the join with `UnexpectedEvent`.
    pub fn join_queue(&self, process_id: &str, tags: &Tags, state: Join, event: Event) -> (next: (
        Join,
        Option<Call>,
    ))
        requires
            self.well_formed(),
        ensures
            next.1 is None <==> next.0 is Done,
            match (state, event) {
                (Join::Done(result), _) => next.0 == state,
                (Join::Start, Event::Begin) => next.0 is Reading && asks_read(
                    next.1,
                    self.table_name@,
                    self.id@,
                    false,
                ),
                (Join::Reading, Event::Got(outcome)) => self.join_after_read(process_id@, tags@, outcome, next),
                (Join::Writing(token, ticket), Event::Put(outcome)) => match outcome {
                    Ok(()) => next.0 == Join::Done(Ok((token, ticket))),
                    Err(failure) => if is_conditional_failure(failure@) {
                        next.0 is Sleeping && asks_wait(next.1, self.retry_time, self.jitter_millis)
                    } else {
                        next.0 matches Join::Done(Err(found)) && found@ == ErrorModel::PutItem(failure@)
                    },
                },
                (Join::Sleeping, Event::Slept) => next.0 is Reading && asks_read(
                    next.1,
                    self.table_name@,
                    self.id@,
                    false,
                ),
                _ => next.0 matches Join::Done(Err(found)) && found@ == ErrorModel::UnexpectedEvent,
            },
    {
        match (state, event) {
            (Join::Done(result), _) => (Join::Done(result), None),
            (Join::Start, Event::Begin) => (Join::Reading, Some(Call::GetItem(self.read_input()))),
            (Join::Reading, Event::Got(outcome)) => {
                let mut row = match self.read(outcome) {
                    Err(error) => {
                        return (Join::Done(Err(error)), None);
                    },
                    Ok(Some(row)) => row,
                    Ok(None) => QueueRow::new(self.id.clone()),
                };
                let ghost queue = row@.queue;
                if let Some(index) = row.find(process_id) {
                    return (Join::Done(Ok((row.version, row.ticket(index)))), None);
                }
                if row.value == u64::MAX || row.version == u64::MAX {
                    return (Join::Done(Err(ErrorKind::Overflow)), None);
                }
                let position = row.items.len();
                let counter: u64 = row.value + 1;
                let ticket = Ticket::new(process_id.to_owned(), counter, position, tags.clone());
                row.value = counter;
                row.items.push(QueuePosition::new(process_id.to_owned(), counter, tags.clone()));
                proof {
                    let after = joined(queue, process_id@, tags@);
                    assert(positions_of(row.items@) =~= after.items);
                    assert(written(row@.queue) == after);
                    lemma_join_idempotent(queue, process_id@, tags@, tags@);
                }
                match self.write(&row) {
                    Ok(put) => (Join::Writing(row.version + 1, ticket), Some(Call::PutItem(put))),
                    Err(error) => (Join::Done(Err(error)), None),
                }
            },
            (Join::Writing(token, ticket), Event::Put(outcome)) => match after_put(
                outcome,
                self.retry_time,
                self.jitter_millis,
            ) {
                PutVerdict::Written => (Join::Done(Ok((token, ticket))), None),
                PutVerdict::Retry(millis) => (Join::Sleeping, Some(Call::Sleep(millis))),
                PutVerdict::Failed(error) => (Join::Done(Err(error)), None),
            },
            (Join::Sleeping, Event::Slept) => (Join::Reading, Some(Call::GetItem(self.read_input()))),
            _ => (Join::Done(Err(ErrorKind::UnexpectedEvent)), None),
        }
    }

    /// One step of a leave. The row is read. Where there is no row, or the
    /// process is not in it, the leave ends with `TicketNotFound`. Else the
    /// process is taken out and the row is written on the condition that it
    /// is still as it was read; where it is not, the leave waits for the
    /// retry time and its jitter and begins again with the read, as often as
    /// it takes. Any other error ends the leave, and so does a version at the
    /// end of the 64-bit range, with `Overflow`. A state that is `Done`
    /// stays; an event that does not answer the call that was asked for ends
    /// the leave with `UnexpectedEvent`.
    pub fn leave_queue(&self, process_id: &str, state: Leave, event: Event) -> (next: (Leave, Option<Call>))
        requires
            self.well_formed(),
        ensures
            next.1 is None <==> next.0 is Done,
            match (state, event) {
                (Leave::Done(result), _) => next.0 == state,
                (Leave::Start, Event::Begin) => next.0 is Reading && asks_read(
                    next.1,
                    self.table_name@,
                    self.id@,
                    false,
                ),
                (Leave::Reading, Event::Got(outcome)) => self.leave_after_read(process_id@, outcome, next),
                (Leave::Writing(token), Event::Put(outcome)) => match outcome {
                    Ok(()) => next.0 == Leave::Done(Ok(token)),
                    Err(failure) => if is_conditional_failure(failure@) {
                        next.0 is Sleeping && asks_wait(next.1, self.retry_time, self.jitter_millis)
                    } else {
                        next.0 matches Leave::Done(Err(found)) && found@ == ErrorModel::PutItem(failure@)
                    },
                },
                (Leave::Sleeping, Event::Slept) => next.0 is Reading && asks_read(
                    next.1,
                    self.table_name@,
                    self.id@,
                    false,
                ),
                _ => next.0 matches Leave::Done(Err(found)) && found@ == ErrorModel::UnexpectedEvent,
            },
    {
        match (state, event) {
            (Leave::Done(result), _) => (Leave::Done(result), None),
            (Leave::Start, Event::Begin) => (Leave::Reading, Some(Call::GetItem(self.read_input()))),
            (Leave::Reading, Event::Got(outcome)) => {
                let mut row = match self.read(outcome) {
                    Err(error) => {
                        return (Leave::Done(Err(error)), None);
                    },
                    Ok(Some(row)) => row,
                    Ok(None) => {
                        proof {
                            lemma_index_of(empty_queue().items, process_id@);
                        }
                        return (Leave::Done(Err(ErrorKind::TicketNotFound(process_id.to_owned()))), None);
                    },
                };
                let ghost queue = row@.queue;
                let index = match row.find(process_id) {
                    Some(index) => index,
                    None => {
                        return (Leave::Done(Err(ErrorKind::TicketNotFound(process_id.to_owned()))), None);
                    },
                };
                if row.version == u64::MAX {
                    return (Leave::Done(Err(ErrorKind::Overflow)), None);
                }
                row.items.remove(index);
                proof {
                    let after = left(queue, process_id@);
                    assert(positions_of(row.items@) =~= after.items);
                    assert(written(row@.queue) == after);
                }
                match self.write(&row) {
                    Ok(put) => (Leave::Writing(row.version + 1), Some(Call::PutItem(put))),
                    Err(error) => (Leave::Done(Err(error)), None),
                }
            },
            (Leave::Writing(token), Event::Put(outcome)) => match after_put(
                outcome,
                self.retry_time,
                self.jitter_millis,
            ) {
                PutVerdict::Written => (Leave::Done(Ok(token)), None),
                PutVerdict::Retry(millis) => (Leave::Sleeping, Some(Call::Sleep(millis))),
                PutVerdict::Failed(error) => (Leave::Done(Err(error)), None),
            },
            (Leave::Sleeping, Event::Slept) => (Leave::Reading, Some(Call::GetItem(self.read_input()))),
            _ => (Leave::Done(Err(ErrorKind::UnexpectedEvent)), None),
        }
    }
}

} // verus!
