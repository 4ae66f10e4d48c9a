//! Reading the answer of a DNS-over-HTTPS resolver: a JSON document whose
//! `Answer` array holds, among others, the addresses of the name.

use vstd::prelude::*;
use vstd::string::StringExecFns;
use vstd::utf8::{decode_utf8, valid_utf8};
use crate::text::{chars_are, chars_of};

verus! {

#[verifier::external_type_specification]
#[verifier::external_body]
pub struct ExJsonValue(serde_json::Value);

/// A JSON document, as far as the resolver's answer is read: numbers are
/// kept without their value, and the members of an object in the order in
/// which the parser hands them out, each key once.
#[derive(Debug, PartialEq, Eq)]
pub enum Json {
    Null,
    Bool(bool),
    Number,
    Text(String),
    Array(Vec<Json>),
    Object(Vec<(String, Json)>),
}

/// The document that `text` spells in JSON, where it spells one.
pub uninterp spec fn json_of(text: Seq<char>) -> Option<Json>;

/// Takes a `serde_json::Value` apart, variant by variant, into a `Json`.
/// Nothing is claimed of the result.
#[verifier::external_body]
fn json_from_value(value: serde_json::Value) -> Json {
    match value {
        serde_json::Value::Null => Json::Null,
        serde_json::Value::Bool(b) => Json::Bool(b),
        serde_json::Value::Number(_) => Json::Number,
        serde_json::Value::String(s) => Json::Text(s),
        serde_json::Value::Array(a) => Json::Array(a.into_iter().map(json_from_value).collect()),
        serde_json::Value::Object(m) => Json::Object(
            m.into_iter().map(|(k, v)| (k, json_from_value(v))).collect(),
        ),
    }
}

/// `serde_json::from_str`: the document that the parser reads from `text`,
/// or none where it rejects the text; either depends on the text alone.
#[verifier::external_body]
fn parse_json(text: &str) -> (out: Option<Json>)
    ensures
        out == json_of(text@),
{
    serde_json::from_str::<serde_json::Value>(text).ok().map(json_from_value)
}

/// `String::from_utf8`: the text that `bytes` encode, and none exactly
/// where they are no valid UTF-8.
#[verifier::external_body]
fn utf8_text(bytes: Vec<u8>) -> (out: Option<String>)
    ensures
        out is Some <==> valid_utf8(bytes@),
        out matches Some(text) ==> text@ == decode_utf8(bytes@),
{
    String::from_utf8(bytes).ok()
}

/// The position of the first member of `entries` whose key is `key`, or
/// the number of entries where there is none.
pub open spec fn member_index(entries: Seq<(String, Json)>, key: Seq<char>) -> int
    decreases entries.len(),
{
    if entries.len() == 0 {
        0
    } else if entries[0].0@ == key {
        0
    } else {
        1 + member_index(entries.skip(1), key)
    }
}

/// The member `key` of an object; none for what is no object or has no
/// such member.
pub open spec fn member_of(json: Json, key: Seq<char>) -> Option<Json> {
    match json {
        Json::Object(entries) => {
            let i = member_index(entries@, key);
            if 0 <= i < entries@.len() {
                Some(entries@[i].1)
            } else {
                None
            }
        },
        _ => None,
    }
}

proof fn lemma_member_index(entries: Seq<(String, Json)>, key: Seq<char>)
    ensures
        0 <= member_index(entries, key) <= entries.len(),
        member_index(entries, key) < entries.len() ==> entries[member_index(entries, key)].0@
            == key,
        forall|j: int| 0 <= j < member_index(entries, key) ==> entries[j].0@ != key,
    decreases entries.len(),
{
    if entries.len() > 0 && entries[0].0@ != key {
        let rest = entries.skip(1);
        lemma_member_index(rest, key);
        assert forall|j: int| 0 <= j < member_index(entries, key) implies entries[j].0@ != key by {
            if j > 0 {
                assert(entries[j] == rest[j - 1]);
            }
        }
        if member_index(rest, key) < rest.len() {
            assert(entries[member_index(entries, key)] == rest[member_index(rest, key)]);
        }
    }
}

/// The member `key` of an object.
#[verifier::loop_isolation(false)]
pub fn member<'a>(json: &'a Json, key: &str) -> (found: Option<&'a Json>)
    ensures
        found matches Some(value) ==> member_of(*json, key@) == Some(*value),
        found is None ==> member_of(*json, key@) is None,
{
    match json {
        Json::Object(entries) => {
            let n: usize = entries.len();
            let mut i: usize = 0;
            proof {
                lemma_member_index(entries@, key@);
            }
            while i < n
                invariant
                    n == entries@.len(),
                    i <= n,
                    forall|j: int| 0 <= j < i ==> entries@[j].0@ != key@,
                decreases n - i,
            {
                let name: Vec<char> = chars_of(entries[i].0.as_str());
                if chars_are(&name, key) {
                    proof {
                        lemma_member_index(entries@, key@);
                        let f = member_index(entries@, key@);
                        assert(entries@[i as int].0@ == key@);
                        if f > i {
                            assert(entries@[i as int].0@ != key@);
                        }
                        if f < i {
                            assert(entries@[f].0@ != key@);
                        }
                        assert(f == i);
                    }
                    return Some(&entries[i].1);
                }
                i += 1;
            }
            proof {
                lemma_member_index(entries@, key@);
            }
            None
        },
        _ => None,
    }
}

/// The texts that stand as `data` in the items of `items`, in order. An
/// item without a `data` member that is a text gives none.
pub open spec fn data_texts(items: Seq<Json>) -> Seq<Seq<char>>
    decreases items.len(),
{
    if items.len() == 0 {
        Seq::empty()
    } else {
        let before = data_texts(items.drop_last());
        match member_of(items.last(), "data"@) {
            Some(Json::Text(text)) => before.push(text@),
            _ => before,
        }
    }
}

/// The texts of a list of strings.
pub open spec fn texts(list: Seq<String>) -> Seq<Seq<char>> {
    list.map_values(|s: String| s@)
}

/// What a resolver's answer holds, or why it cannot be read.
pub enum AnswerView {
    /// The bytes are no valid UTF-8.
    NotText,
    /// The text is no JSON document.
    NotJson,
    /// The document has no `Answer` member that is an array.
    NoAnswer,
    /// The `data` texts of the answers, in order.
    Data(Seq<Seq<char>>),
}

/// What the answer `response` holds.
pub open spec fn answer_of(response: Seq<u8>) -> AnswerView {
    if !valid_utf8(response) {
        AnswerView::NotText
    } else {
        match json_of(decode_utf8(response)) {
            None => AnswerView::NotJson,
            Some(json) => answer_in(json),
        }
    }
}

/// What the document `json` holds as an answer.
pub open spec fn answer_in(json: Json) -> AnswerView {
    match member_of(json, "Answer"@) {
        Some(Json::Array(items)) => AnswerView::Data(data_texts(items@)),
        _ => AnswerView::NoAnswer,
    }
}

/// The `data` texts of the answers in a parsed document, in order, or the
/// message `Malformed Answer` where it has no array of answers.
pub fn answers_in(json: &Json) -> (out: Result<Vec<String>, String>)
    ensures
        out matches Ok(list) ==> answer_in(*json) == AnswerView::Data(texts(list@)),
        out matches Err(message) ==> answer_in(*json) == AnswerView::NoAnswer && message@
            == "Malformed Answer"@,
{
    match member(json, "Answer") {
        Some(Json::Array(items)) => {
            let n: usize = items.len();
            let mut list: Vec<String> = Vec::new();
            let mut i: usize = 0;
            assert(items@.take(0) =~= Seq::<Json>::empty());
            assert(texts(list@) =~= Seq::<Seq<char>>::empty());
            while i < n
                invariant
                    n == items@.len(),
                    i <= n,
                    texts(list@) == data_texts(items@.take(i as int)),
                decreases n - i,
            {
                assert(items@.take(i + 1).drop_last() =~= items@.take(i as int));
                assert(items@.take(i + 1).last() == items@[i as int]);
                match member(&items[i], "data") {
                    Some(Json::Text(text)) => {
                        let ghost before = list@;
                        list.push(text.clone());
                        assert(texts(list@) =~= texts(before).push(text@));
                    },
                    _ => {},
                }
                i += 1;
            }
            assert(items@.take(n as int) =~= items@);
            Ok(list)
        },
        _ => Err(String::from_str("Malformed Answer")),
    }
}

/// Reads a resolver's answer: the `data` texts of its answers, in order. The
/// error is `Malformed request body` for bytes that are no UTF-8, `JSON
/// Parse error` for a text that is no JSON, and `Malformed Answer` for a
/// document without an array of answers.
pub fn answer_data(response_data: Vec<u8>) -> (out: Result<Vec<String>, String>)
    ensures
        out matches Ok(list) ==> answer_of(response_data@) == AnswerView::Data(texts(list@)),
        out matches Err(message) ==> {
            ||| answer_of(response_data@) == AnswerView::NotText && message@
                == "Malformed request body"@
            ||| answer_of(response_data@) == AnswerView::NotJson && message@ == "JSON Parse error"@
            ||| answer_of(response_data@) == AnswerView::NoAnswer && message@
                == "Malformed Answer"@
        },
{
    let text: String = match utf8_text(response_data) {
        Some(text) => text,
        None => {
            return Err(String::from_str("Malformed request body"));
        },
    };
    let json: Json = match parse_json(text.as_str()) {
        Some(json) => json,
        None => {
            return Err(String::from_str("JSON Parse error"));
        },
    };
    answers_in(&json)
}

/// The position of the first candidate that is marked as an address, or
/// the number of candidates where none is. A candidate without a mark
/// counts as none.
pub open spec fn first_marked(marks: Seq<bool>, count: int) -> int
    decreases count,
{
    if count <= 0 {
        0
    } else {
        let before = first_marked(marks, count - 1);
        if before < count - 1 {
            before
        } else if count - 1 < marks.len() && marks[count - 1] {
            count - 1
        } else {
            count
        }
    }
}

/// Picks the first of `candidates` whose mark in `is_address` is set; the
/// error is `400` where none is.
pub fn get_first_ip(candidates: &Vec<String>, is_address: &Vec<bool>) -> (out: Result<
    String,
    String,
>)
    ensures
        out matches Ok(address) ==> {
            let i = first_marked(is_address@, candidates@.len() as int);
            i < candidates@.len() && address@ == candidates@[i]@
        },
        out matches Err(message) ==> first_marked(is_address@, candidates@.len() as int)
            == candidates@.len() && message@ == "400"@,
{
    let n: usize = candidates.len();
    let mut i: usize = 0;
    while i < n
        invariant
            n == candidates@.len(),
            i <= n,
            first_marked(is_address@, i as int) == i,
        decreases n - i,
    {
        if i < is_address.len() && is_address[i] {
            proof {
                lemma_first_marked_stays(is_address@, i as int, n as int);
            }
            return Ok(candidates[i].clone());
        }
        i += 1;
    }
    Err(String::from_str("400"))
}

proof fn lemma_first_marked_stays(marks: Seq<bool>, i: int, count: int)
    requires
        0 <= i < count,
        first_marked(marks, i) == i,
        i < marks.len() && marks[i],
    ensures
        first_marked(marks, count) == i,
    decreases count - i,
{
    if count > i + 1 {
        lemma_first_marked_stays(marks, i, count - 1);
    }
}

} // verus!
