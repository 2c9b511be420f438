//! A JSON value as the normaliser reads it.
//!
//! An object is held as the list of its members. Where a name occurs more
//! than once, the last member of that name counts, as it does for a JSON
//! parser.

use vstd::prelude::*;
use vstd::string::StringExecFns;
use crate::sorted::{insert_sorted, lists};
use crate::text::{str_eq, strictly_sorted};

verus! {

/// `serde_json::Value`, the form in which `serde_json` reads and writes.
/// Nothing inside it is seen here.
#[verifier::external_type_specification]
#[verifier::external_body]
pub struct ExValue(serde_json::Value);

/// A JSON value. A number is held as its text.
#[derive(Debug, PartialEq, Eq)]
pub enum JsonValue {
    Null,
    Bool(bool),
    Number(String),
    String(String),
    Array(Vec<JsonValue>),
    Object(Vec<(String, JsonValue)>),
}

/// The compact JSON text of a value, as `serde_json` writes it: no white
/// space between tokens, the members of an object in the order of their
/// names.
pub uninterp spec fn json_text(value: JsonValue) -> Seq<char>;

/// Builds the `serde_json::Value` that stands for `value`, variant by
/// variant, for `render_json` to write. The text of a number is read with
/// `serde_json::from_str`; a text that is no number stands for null. The
/// members of an object are collected into a `serde_json::Map`, which keeps
/// the last of the members of one name. Nothing is claimed of the result.
#[verifier::external_body]
fn to_serde(value: &JsonValue) -> (out: serde_json::Value) {
    match value {
        JsonValue::Null => serde_json::Value::Null,
        JsonValue::Bool(b) => serde_json::Value::Bool(*b),
        JsonValue::Number(n) => serde_json::from_str::<serde_json::Number>(n).map_or(
            serde_json::Value::Null,
            serde_json::Value::Number,
        ),
        JsonValue::String(s) => serde_json::Value::String(s.clone()),
        JsonValue::Array(items) => serde_json::Value::Array(items.iter().map(to_serde).collect()),
        JsonValue::Object(members) => serde_json::Value::Object(
            members.iter().map(|m| (m.0.clone(), to_serde(&m.1))).collect(),
        ),
    }
}

/// Writes `value` as compact JSON text with `serde_json`'s `Display` for
/// `serde_json::Value`, by way of `to_string`. The claim is that the text
/// is a function of the value, named `json_text`; what the text holds is
/// not stated.
#[verifier::external_body]
fn render_json(value: &JsonValue) -> (text: String)
    ensures
        text@ == json_text(*value),
{
    let out: serde_json::Value = to_serde(value);
    out.to_string()
}

/// What `serde_json` reads from a text: the value, or `None` where the
/// text is no JSON. Of members of one name the last is read.
pub uninterp spec fn parsed_json(text: Seq<char>) -> Option<JsonValue>;

/// Takes a `serde_json::Value` apart, variant by variant, for `read_json`
/// to hand on. A number is kept as the text that `serde_json::Number`'s
/// `Display` gives. The members of an object come in the order in which
/// its `serde_json::Map` holds them. Nothing is claimed of the result.
#[verifier::external_body]
fn from_serde(value: &serde_json::Value) -> (out: JsonValue) {
    match value {
        serde_json::Value::Null => JsonValue::Null,
        serde_json::Value::Bool(b) => JsonValue::Bool(*b),
        serde_json::Value::Number(n) => JsonValue::Number(n.to_string()),
        serde_json::Value::String(s) => JsonValue::String(s.clone()),
        serde_json::Value::Array(items) => JsonValue::Array(items.iter().map(from_serde).collect()),
        serde_json::Value::Object(members) => JsonValue::Object(
            members.iter().map(|m| (m.0.clone(), from_serde(m.1))).collect(),
        ),
    }
}

/// Reads `text` with `serde_json::from_str` into a `serde_json::Value`;
/// an error of any kind is answered with `None`. The claim is that what is
/// read is a function of the text, named `parsed_json`; what is read from a
/// given text is not stated.
#[verifier::external_body]
fn read_json(text: &str) -> (value: Option<JsonValue>)
    ensures
        value == parsed_json(text@),
{
    match serde_json::from_str::<serde_json::Value>(text) {
        Ok(read) => Some(from_serde(&read)),
        Err(_) => None,
    }
}

impl JsonValue {
    /// Reads a JSON text.
    pub fn parse(text: &str) -> (value: Option<JsonValue>)
        ensures
            value == parsed_json(text@),
    {
        read_json(text)
    }

    /// Writes the value as compact JSON text.
    pub fn to_json_text(&self) -> (text: String)
        ensures
            text@ == json_text(*self),
    {
        render_json(self)
    }
}

/// How a value is shown in a table cell: null as `N/A`, a string and a
/// number as their text, a boolean as `true` or `false`, an array and an
/// object as their JSON text.
pub open spec fn cell_text(value: JsonValue) -> Seq<char> {
    match value {
        JsonValue::Null => "N/A"@,
        JsonValue::Bool(b) => if b {
            "true"@
        } else {
            "false"@
        },
        JsonValue::Number(n) => n@,
        JsonValue::String(s) => s@,
        _ => json_text(value),
    }
}

/// The names of the members.
pub open spec fn key_set(members: Seq<(String, JsonValue)>) -> Set<Seq<char>> {
    Set::new(|k: Seq<char>| exists|i: int| 0 <= i < members.len() && (#[trigger] members[i]).0@ == k)
}

/// The member named `key`: the last of that name.
pub open spec fn member(members: Seq<(String, JsonValue)>, key: Seq<char>) -> Option<JsonValue>
    decreases members.len(),
{
    if members.len() == 0 {
        None
    } else if members.last().0@ == key {
        Some(members.last().1)
    } else {
        member(members.drop_last(), key)
    }
}

/// The listing of a set: its members in increasing order.
pub open spec fn listing_of(set: Set<Seq<char>>) -> Seq<Seq<char>> {
    choose|s: Seq<Seq<char>>| lists(s, set)
}

/// A listing of a set is the listing of that set.
pub proof fn lemma_listing_of(s: Seq<Seq<char>>, set: Set<Seq<char>>)
    requires
        lists(s, set),
    ensures
        listing_of(set) == s,
{
    crate::sorted::lemma_listing_unique(s, listing_of(set), set);
}

/// A member is found exactly under the names that occur.
pub proof fn lemma_member_present(members: Seq<(String, JsonValue)>, key: Seq<char>)
    ensures
        member(members, key) is Some <==> key_set(members).contains(key),
    decreases members.len(),
{
    if members.len() > 0 {
        let front = members.drop_last();
        lemma_member_present(front, key);
        if key_set(front).contains(key) {
            let i = choose|i: int| 0 <= i < front.len() && (#[trigger] front[i]).0@ == key;
            assert(members[i].0@ == key);
        }
        if key_set(members).contains(key) && members.last().0@ != key {
            let i = choose|i: int| 0 <= i < members.len() && (#[trigger] members[i]).0@ == key;
            assert(front[i].0@ == key);
        }
        if members.last().0@ == key {
            assert(members[members.len() - 1].0@ == key);
        }
    }
}

/// The member of a name is the one after which no member has that name.
pub proof fn lemma_member_at(members: Seq<(String, JsonValue)>, i: int, key: Seq<char>)
    requires
        0 <= i < members.len(),
        members[i].0@ == key,
        forall|j: int| i < j < members.len() ==> (#[trigger] members[j]).0@ != key,
    ensures
        member(members, key) == Some(members[i].1),
    decreases members.len(),
{
    if i < members.len() - 1 {
        let front = members.drop_last();
        assert(members.last().0@ != key);
        assert forall|j: int| i < j < front.len() implies (#[trigger] front[j]).0@ != key by {
            assert(members[j].0@ != key);
        }
        lemma_member_at(front, i, key);
    }
}

/// Shows a value as a table cell.
pub fn flatten_nested(value: &JsonValue) -> (text: String)
    ensures
        text@ == cell_text(*value),
{
    match value {
        JsonValue::Null => String::from_str("N/A"),
        JsonValue::Bool(b) => {
            if *b {
                String::from_str("true")
            } else {
                String::from_str("false")
            }
        },
        JsonValue::Number(n) => n.clone(),
        JsonValue::String(s) => s.clone(),
        _ => render_json(value),
    }
}

/// Looks a member up by name.
pub fn lookup<'a>(members: &'a Vec<(String, JsonValue)>, key: &str) -> (found: Option<
    &'a JsonValue,
>)
    ensures
        match found {
            Some(v) => member(members@, key@) == Some(*v),
            None => member(members@, key@) is None,
        },
{
    let mut i: usize = members.len();
    assert(members@.take(i as int) =~= members@);
    while i > 0
        invariant
            i <= members@.len(),
            member(members@, key@) == member(members@.take(i as int), key@),
        decreases i,
    {
        i -= 1;
        proof {
            let part = members@.take(i + 1);
            assert(part.last() == members@[i as int]);
            assert(part.drop_last() =~= members@.take(i as int));
        }
        if str_eq(members[i].0.as_str(), key) {
            return Some(&members[i].1);
        }
    }
    proof {
        assert(members@.take(0).len() == 0);
    }
    None
}

/// The names of the members, each once, in increasing order.
pub fn sorted_keys(members: &Vec<(String, JsonValue)>) -> (keys: Vec<String>)
    ensures
        keys.deep_view() == listing_of(key_set(members@)),
        lists(keys.deep_view(), key_set(members@)),
{
    let mut keys: Vec<String> = Vec::new();
    let mut i: usize = 0;
    while i < members.len()
        invariant
            i <= members@.len(),
            lists(keys.deep_view(), key_set(members@.take(i as int))),
        decreases members@.len() - i,
    {
        let ghost before = keys.deep_view();
        insert_sorted(&mut keys, members[i].0.as_str());
        proof {
            let shorter = members@.take(i as int);
            let longer = members@.take(i + 1);
            assert forall|k: Seq<char>| key_set(longer).contains(k) <==> keys.deep_view().contains(
                k,
            ) by {
                if key_set(longer).contains(k) {
                    let x = choose|x: int| 0 <= x < longer.len() && (#[trigger] longer[x]).0@ == k;
                    if x < i {
                        assert(shorter[x].0@ == k);
                        assert(key_set(shorter).contains(k));
                    }
                }
                if before.contains(k) {
                    assert(key_set(shorter).contains(k));
                    let x = choose|x: int|
                        0 <= x < shorter.len() && (#[trigger] shorter[x]).0@ == k;
                    assert(longer[x].0@ == k);
                }
                if k == members@[i as int].0@ {
                    assert(longer[i as int].0@ == k);
                }
            }
        }
        i += 1;
    }
    proof {
        assert(members@.take(i as int) =~= members@);
        lemma_listing_of(keys.deep_view(), key_set(members@));
    }
    keys
}

} // verus!
