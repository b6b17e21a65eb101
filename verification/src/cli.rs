//! What the command line hands to the library: tags written as `KEY=VALUE`.

use crate::string::chars_of;
use crate::tags::Tags;
use vstd::prelude::*;
use vstd::string::*;

verus! {

/// An error of the command line, by its characters.
pub enum ErrorModel {
    MissingArgument(Seq<char>),
    InvalidTag(Seq<char>),
}

#[derive(Debug, Clone, PartialEq, Eq)]
pub enum ErrorKind {
    /// An argument that is needed was not given.
    MissingArgument(String),
    /// A tag is not written as `KEY=VALUE`.
    InvalidTag(String),
}

impl View for ErrorKind {
    type V = ErrorModel;

    open spec fn view(&self) -> ErrorModel {
        match self {
            ErrorKind::MissingArgument(argument) => ErrorModel::MissingArgument(argument@),
            ErrorKind::InvalidTag(tag) => ErrorModel::InvalidTag(tag@),
        }
    }
}

impl ErrorKind {
    /// The error in words.
    pub fn message(&self) -> (text: String)
        ensures
            text@ == match self {
                ErrorKind::MissingArgument(argument) => "missing argument: "@ + argument@,
                ErrorKind::InvalidTag(tag) => "invalid tag: "@ + tag@,
            },
    {
        match self {
            ErrorKind::MissingArgument(argument) => {
                let mut text = "missing argument: ".to_owned();
                text.append(argument.as_str());
                text
            },
            ErrorKind::InvalidTag(tag) => {
                let mut text = "invalid tag: ".to_owned();
                text.append(tag.as_str());
                text
            },
        }
    }
}

/// The index of the first `=` in `text`; `text.len()` where there is none.
pub open spec fn first_equals(text: Seq<char>) -> int
    decreases text.len(),
{
    if text.len() == 0 {
        0
    } else if text[0] == '=' {
        0
    } else {
        1 + first_equals(text.drop_first())
    }
}

/// The key and the value of a tag written as `KEY=VALUE`: what stands before
/// the first `=` and what stands after it, either of which may be empty.
/// `None` where the text holds no `=`.
pub open spec fn tag_in(text: Seq<char>) -> Option<(Seq<char>, Seq<char>)> {
    let at = first_equals(text);
    if at < text.len() {
        Some((text.take(at), text.skip(at + 1)))
    } else {
        None
    }
}

/// The tags that `texts` stand for, a later tag in place of an earlier one
/// of the same key; or the first text that is no tag.
pub open spec fn tags_parsed(texts: Seq<Seq<char>>) -> Result<Map<Seq<char>, Seq<char>>, Seq<char>>
    decreases texts.len(),
{
    if texts.len() == 0 {
        Ok(Map::empty())
    } else {
        match tags_parsed(texts.drop_last()) {
            Err(text) => Err(text),
            Ok(tags) => match tag_in(texts.last()) {
                Some((key, value)) => Ok(tags.insert(key, value)),
                None => Err(texts.last()),
            },
        }
    }
}

/// `first_equals` is the first index that holds `=`, or the length.
pub proof fn lemma_first_equals(text: Seq<char>)
    ensures
        0 <= first_equals(text) <= text.len(),
        first_equals(text) < text.len() ==> text[first_equals(text)] == '=',
        forall|i: int| 0 <= i < first_equals(text) ==> #[trigger] text[i] != '=',
    decreases text.len(),
{
    if text.len() > 0 && text[0] != '=' {
        let tail = text.drop_first();
        lemma_first_equals(tail);
        assert forall|i: int| 0 <= i < first_equals(text) implies #[trigger] text[i] != '=' by {
            if i > 0 {
                assert(tail[i - 1] != '=');
            }
        }
    }
}

/// Where the first texts hold one that is no tag, the texts as a whole give
/// the same one.
pub proof fn lemma_tags_parsed_prefix(texts: Seq<Seq<char>>, count: int)
    requires
        0 <= count <= texts.len(),
        tags_parsed(texts.take(count)) is Err,
    ensures
        tags_parsed(texts) == tags_parsed(texts.take(count)),
    decreases texts.len() - count,
{
    if count < texts.len() {
        assert(texts.take(count + 1).drop_last() =~= texts.take(count));
        lemma_tags_parsed_prefix(texts, count + 1);
    } else {
        assert(texts.take(count) =~= texts);
    }
}

/// The key and the value of a tag written as `KEY=VALUE`.
pub fn parse_tag(text: &str) -> (tag: Option<(String, String)>)
    ensures
        match tag {
            Some((key, value)) => tag_in(text@) == Some((key@, value@)),
            None => tag_in(text@) is None,
        },
{
    let chars = chars_of(text);
    let mut at: usize = 0;
    while at < chars.len() && chars[at] != '='
        invariant
            at <= chars.len(),
            chars@ == text@,
            forall|i: int| 0 <= i < at ==> #[trigger] text@[i] != '=',
        decreases chars.len() - at,
    {
        at += 1;
    }
    proof {
        lemma_first_equals(text@);
        let first = first_equals(text@);
        if at < first {
            assert(text@[at as int] != '=');
        } else if first < at {
            assert(text@[first] != '=');
        }
    }
    if at == chars.len() {
        return None;
    }
    let key = text.substring_char(0, at).to_owned();
    let value = text.substring_char(at + 1, chars.len()).to_owned();
    Some((key, value))
}

/// The tags that `tags` stand for, each written as `KEY=VALUE`; `InvalidTag`
/// with the first text that is not written so.
pub fn parse_tags(tags: &Vec<String>) -> (parsed: Result<Tags, ErrorKind>)
    ensures
        match parsed {
            Ok(found) => tags_parsed(crate::aws::item::texts_of(tags@)) == Ok::<
                Map<Seq<char>, Seq<char>>,
                Seq<char>,
            >(found@),
            Err(error) => match tags_parsed(crate::aws::item::texts_of(tags@)) {
                Err(text) => error@ == ErrorModel::InvalidTag(text),
                Ok(_) => false,
            },
        },
{
    let ghost texts = crate::aws::item::texts_of(tags@);
    let mut result = Tags::new();
    let mut i: usize = 0;
    assert(texts.take(0) =~= Seq::<Seq<char>>::empty());
    while i < tags.len()
        invariant
            i <= tags.len(),
            texts == crate::aws::item::texts_of(tags@),
            tags_parsed(texts.take(i as int)) == Ok::<Map<Seq<char>, Seq<char>>, Seq<char>>(result@),
        decreases tags.len() - i,
    {
        assert(texts.take(i + 1).drop_last() =~= texts.take(i as int));
        assert(texts.take(i + 1).last() == tags@[i as int]@);
        match parse_tag(tags[i].as_str()) {
            Some((key, value)) => {
                result.insert(key, value);
            },
            None => {
                proof {
                    lemma_tags_parsed_prefix(texts, i + 1);
                }
                return Err(ErrorKind::InvalidTag(tags[i].clone()));
            },
        }
        i += 1;
    }
    assert(texts.take(i as int) =~= texts);
    Ok(result)
}

} // verus!
