//! The JSON documents that travel in the payloads.
//!
//! The library builds and reads documents as values of its own type,
//! [`JsonValue`]. Turning them into text and back is left to `serde_json`.

use crate::text::text_eq;
use vstd::prelude::*;

verus! {

/// A JSON value, as far as the device protocol uses JSON: objects whose
/// members are texts, truth values, whole numbers, or objects again.
pub enum JsonValue {
    Null,
    Bool(bool),
    /// A whole number from 0 to 2^64 - 1.
    Number(u64),
    Text(String),
    /// The members of an object, each with its name.
    Object(Vec<(String, JsonValue)>),
    /// Anything else: an array, a negative number, a fraction. Such values
    /// can arrive but are never looked into, and are written as `null`.
    Other,
}

/// What a [`JsonValue`] holds, as mathematics.
pub enum JsonView {
    Null,
    Bool(bool),
    Number(u64),
    Text(Seq<char>),
    Object(Seq<(Seq<char>, JsonView)>),
    Other,
}

impl View for JsonValue {
    type V = JsonView;

    open spec fn view(&self) -> JsonView
        decreases self,
    {
        match self {
            JsonValue::Null => JsonView::Null,
            JsonValue::Bool(b) => JsonView::Bool(*b),
            JsonValue::Number(n) => JsonView::Number(*n),
            JsonValue::Text(t) => JsonView::Text(t@),
            JsonValue::Object(members) => JsonView::Object(
                Seq::new(
                    members@.len(),
                    |i: int|
                        if 0 <= i < members@.len() {
                            (members@[i].0@, members@[i].1.view())
                        } else {
                            (Seq::empty(), JsonView::Null)
                        },
                ),
            ),
            JsonValue::Other => JsonView::Other,
        }
    }
}

/// The first of `members` that goes by `name`.
pub open spec fn find_member(members: Seq<(Seq<char>, JsonView)>, name: Seq<char>) -> Option<
    JsonView,
>
    decreases members.len(),
{
    if members.len() == 0 {
        None
    } else if members[0].0 == name {
        Some(members[0].1)
    } else {
        find_member(members.drop_first(), name)
    }
}

impl JsonView {
    /// The member `name` of an object; nothing for what is no object or has
    /// no such member.
    pub open spec fn member(self, name: Seq<char>) -> Option<JsonView> {
        match self {
            JsonView::Object(members) => find_member(members, name),
            _ => None,
        }
    }

    /// The truth value that this is, if it is one.
    pub open spec fn as_bool(self) -> Option<bool> {
        match self {
            JsonView::Bool(b) => Some(b),
            _ => None,
        }
    }

    /// The whole number that this is, if it is one.
    pub open spec fn as_u64(self) -> Option<u64> {
        match self {
            JsonView::Number(n) => Some(n),
            _ => None,
        }
    }

    /// The text that this is, if it is one.
    pub open spec fn as_str(self) -> Option<Seq<char>> {
        match self {
            JsonView::Text(t) => Some(t),
            _ => None,
        }
    }
}

/// What a list of members holds, as mathematics.
pub open spec fn members_view(members: Seq<(String, JsonValue)>) -> Seq<(Seq<char>, JsonView)> {
    Seq::new(members.len(), |i: int| (members[i].0@, members[i].1@))
}

impl JsonValue {
    /// A text.
    pub fn text(text: &str) -> (value: JsonValue)
        ensures
            value@ == JsonView::Text(text@),
    {
        JsonValue::Text(text.to_owned())
    }

    /// An object with the given members.
    pub fn object(members: Vec<(String, JsonValue)>) -> (value: JsonValue)
        ensures
            value@ == JsonView::Object(members_view(members@)),
    {
        let ghost listed = members@;
        let value = JsonValue::Object(members);
        proof {
            reveal_with_fuel(<JsonValue as View>::view, 2);
            assert(value@->Object_0 =~= members_view(listed));
        }
        value
    }

    /// An object with a single member.
    pub fn single(name: &str, value: JsonValue) -> (object: JsonValue)
        ensures
            object@ == JsonView::Object(seq![(name@, value@)]),
    {
        let mut members: Vec<(String, JsonValue)> = Vec::new();
        members.push((name.to_owned(), value));
        assert(members_view(members@) =~= seq![(name@, value@)]);
        JsonValue::object(members)
    }

    /// Looks up a member of an object by name.
    pub fn get(&self, name: &str) -> (found: Option<&JsonValue>)
        ensures
            match found {
                Some(value) => self@.member(name@) == Some(value@),
                None => self@.member(name@) is None,
            },
    {
        match self {
            JsonValue::Object(members) => {
                let ghost all = Seq::new(
                    members@.len(),
                    |i: int|
                        if 0 <= i < members@.len() {
                            (members@[i].0@, members@[i].1@)
                        } else {
                            (Seq::empty(), JsonView::Null)
                        },
                );
                assert(self@ is Object && self@->Object_0 =~= all);
                assert(all.skip(0) =~= all);
                let mut at: usize = 0;
                while at < members.len()
                    invariant
                        at <= members@.len(),
                        self@ == JsonView::Object(all),
                        all.len() == members@.len(),
                        forall|i: int|
                            0 <= i < members@.len() ==> all[i] == (
                                members@[i].0@,
                                members@[i].1@,
                            ),
                        find_member(all, name@) == find_member(all.skip(at as int), name@),
                    decreases members@.len() - at,
                {
                    let ghost rest = all.skip(at as int);
                    assert(rest[0] == all[at as int]);
                    assert(rest.drop_first() =~= all.skip(at + 1));
                    if text_eq(members[at].0.as_str(), name) {
                        return Some(&members[at].1);
                    }
                    at += 1;
                }
                assert(all.skip(at as int).len() == 0);
                None
            },
            _ => None,
        }
    }

    /// The truth value that this is, if it is one.
    pub fn as_bool(&self) -> (b: Option<bool>)
        ensures
            b == self@.as_bool(),
    {
        match self {
            JsonValue::Bool(b) => Some(*b),
            _ => None,
        }
    }

    /// The whole number that this is, if it is one.
    pub fn as_u64(&self) -> (n: Option<u64>)
        ensures
            n == self@.as_u64(),
    {
        match self {
            JsonValue::Number(n) => Some(*n),
            _ => None,
        }
    }

    /// The text that this is, if it is one.
    pub fn as_str(&self) -> (t: Option<&str>)
        ensures
            match t {
                Some(text) => self@.as_str() == Some(text@),
                None => self@.as_str() is None,
            },
    {
        match self {
            JsonValue::Text(t) => Some(t.as_str()),
            _ => None,
        }
    }
}

/// `serde_json`'s own value type, which only passes through.
#[verifier::external_type_specification]
#[verifier::external_body]
pub struct ExSerdeValue(serde_json::Value);

/// The compact JSON text of a value.
pub uninterp spec fn json_encoding(value: JsonView) -> Seq<u8>;

/// The value that a text spells, if the text is JSON.
pub uninterp spec fn json_parsing(text: Seq<u8>) -> Option<JsonView>;

/// What a text reads like once it is parsed and written out again in compact
/// form, if the text is JSON.
pub uninterp spec fn json_rewriting(text: Seq<u8>) -> Option<Seq<char>>;

/// The value that a text spells; `Null` if the text is no JSON.
pub open spec fn json_decoding(text: Seq<u8>) -> JsonView {
    match json_parsing(text) {
        Some(value) => value,
        None => JsonView::Null,
    }
}

/// The compact form of a text; `null` if the text is no JSON.
pub open spec fn json_normal_form(text: Seq<u8>) -> Seq<char> {
    match json_rewriting(text) {
        Some(normal) => normal,
        None => "null"@,
    }
}

/// Rebuilds a value as one of `serde_json`, member by member.
///
/// Trusted, and nothing is claimed of the result, which is opaque here.
#[verifier::external_body]
fn to_serde(value: &JsonValue) -> serde_json::Value {
    match value {
        JsonValue::Null => serde_json::Value::Null,
        JsonValue::Bool(b) => serde_json::Value::Bool(*b),
        JsonValue::Number(n) => serde_json::Value::Number((*n).into()),
        JsonValue::Text(t) => serde_json::Value::String(t.clone()),
        JsonValue::Object(members) => serde_json::Value::Object(
            members.iter().map(|(name, member)| (name.clone(), to_serde(member))).collect(),
        ),
        JsonValue::Other => serde_json::Value::Null,
    }
}

/// Rebuilds a value of `serde_json` as one of this library, member by member.
///
/// Trusted, and nothing is claimed of the result, since the argument is
/// opaque here.
#[verifier::external_body]
fn from_serde(value: &serde_json::Value) -> JsonValue {
    match value {
        serde_json::Value::Null => JsonValue::Null,
        serde_json::Value::Bool(b) => JsonValue::Bool(*b),
        serde_json::Value::Number(n) => n.as_u64().map_or(JsonValue::Other, JsonValue::Number),
        serde_json::Value::String(t) => JsonValue::Text(t.clone()),
        serde_json::Value::Array(_) => JsonValue::Other,
        serde_json::Value::Object(members) => JsonValue::Object(
            members.iter().map(|(name, member)| (name.clone(), from_serde(member))).collect(),
        ),
    }
}

/// Writes a value as compact JSON with `serde_json::to_vec`.
///
/// Trusted: the text depends on the value alone.
#[verifier::external_body]
pub(crate) fn encode(value: &JsonValue) -> (text: Vec<u8>)
    ensures
        text@ == json_encoding(value@),
{
    serde_json::to_vec(&to_serde(value)).unwrap_or_default()
}

/// Parses a text with `serde_json::from_slice`.
///
/// Trusted: whether the text is JSON, and the value if it is, depend on the
/// text alone.
#[verifier::external_body]
fn parse(text: &[u8]) -> (value: Option<JsonValue>)
    ensures
        match value {
            Some(parsed) => json_parsing(text@) == Some(parsed@),
            None => json_parsing(text@) is None,
        },
{
    match serde_json::from_slice::<serde_json::Value>(text) {
        Ok(parsed) => Some(from_serde(&parsed)),
        Err(_) => None,
    }
}

/// Parses a text with `serde_json::from_slice` and writes the value out again
/// with its `to_string`.
///
/// Trusted: whether the text is JSON, and its compact form if it is, depend
/// on the text alone.
#[verifier::external_body]
fn rewrite(text: &[u8]) -> (normal: Option<String>)
    ensures
        match normal {
            Some(rewritten) => json_rewriting(text@) == Some(rewritten@),
            None => json_rewriting(text@) is None,
        },
{
    match serde_json::from_slice::<serde_json::Value>(text) {
        Ok(parsed) => Some(parsed.to_string()),
        Err(_) => None,
    }
}

/// Reads a document from a text. A text that is no JSON reads as `Null`.
pub fn decode(text: &[u8]) -> (value: JsonValue)
    ensures
        value@ == json_decoding(text@),
{
    match parse(text) {
        Some(parsed) => parsed,
        None => JsonValue::Null,
    }
}

/// Brings a text into compact form. A text that is no JSON gives `null`.
pub fn normal_form(text: &[u8]) -> (normal: String)
    ensures
        normal@ == json_normal_form(text@),
{
    match rewrite(text) {
        Some(rewritten) => rewritten,
        None => "null".to_owned(),
    }
}

} // verus!
