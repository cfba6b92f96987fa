//! JSON documents as the analysis reads them.
//!
//! Documents are parsed by `serde_json` and copied into [`JsonValue`], a tree
//! of plain values that the rest of the library reads.

use crate::text::to_chars;
use vstd::prelude::*;

verus! {

/// A JSON number, reduced to its integer readings.
#[derive(Debug)]
pub struct JsonNumber {
    /// The number as an unsigned integer, if it is one that fits in 64 bits.
    pub unsigned: Option<u64>,
    /// The number as a signed integer, if it is one that fits in 64 bits.
    pub signed: Option<i64>,
    /// The number in JSON notation.
    pub text: String,
}

/// A JSON value.
#[derive(Debug)]
pub enum JsonValue {
    Null,
    Bool(bool),
    Number(JsonNumber),
    Text(String),
    Array(Vec<JsonValue>),
    /// Members in document order of their keys.
    Object(Vec<(String, JsonValue)>),
}

/// Mathematical value of a [`JsonValue`].
pub enum JsonView {
    Null,
    Bool(bool),
    Number { unsigned: Option<u64>, signed: Option<i64>, text: Seq<char> },
    Text(Seq<char>),
    Array(Seq<JsonView>),
    Object(Seq<(Seq<char>, JsonView)>),
}

/// The mathematical value of a JSON value.
pub open spec fn json_model(value: JsonValue) -> JsonView
    decreases value,
{
    match value {
        JsonValue::Null => JsonView::Null,
        JsonValue::Bool(b) => JsonView::Bool(b),
        JsonValue::Number(n) => JsonView::Number {
            unsigned: n.unsigned,
            signed: n.signed,
            text: n.text@,
        },
        JsonValue::Text(t) => JsonView::Text(t@),
        JsonValue::Array(items) => JsonView::Array(
            Seq::new(
                items@.len(),
                |i: int|
                    if 0 <= i < items@.len() {
                        json_model(items@[i])
                    } else {
                        JsonView::Null
                    },
            ),
        ),
        JsonValue::Object(members) => JsonView::Object(
            Seq::new(
                members@.len(),
                |i: int|
                    if 0 <= i < members@.len() {
                        (members@[i].0@, json_model(members@[i].1))
                    } else {
                        (Seq::empty(), JsonView::Null)
                    },
            ),
        ),
    }
}

impl View for JsonValue {
    type V = JsonView;

    open spec fn view(&self) -> JsonView {
        json_model(*self)
    }
}

/// `serde_json::Value`, a parsed JSON document.
#[verifier::external_type_specification]
#[verifier::external_body]
pub struct ExSerdeValue(serde_json::Value);

/// `serde_json::Error`, the reason why a text is not a JSON document.
#[verifier::external_type_specification]
#[verifier::external_body]
pub struct ExSerdeError(serde_json::Error);

/// The JSON document that a text denotes; `None` if the text is not a JSON
/// document.
pub uninterp spec fn json_document(text: Seq<char>) -> Option<JsonView>;

/// What a parsed document holds.
pub uninterp spec fn json_content(value: serde_json::Value) -> JsonView;

/// `serde_json::from_str` for `serde_json::Value`: succeeds exactly on the
/// texts that denote a JSON document, and then yields that document.
#[verifier::external_body]
fn json_parse(text: &str) -> (parsed: Result<serde_json::Value, serde_json::Error>)
    ensures
        parsed is Ok == json_document(text@) is Some,
        parsed is Ok ==> json_content(parsed->Ok_0) == json_document(text@)->0,
{
    serde_json::from_str::<serde_json::Value>(text)
}

/// Copies a `serde_json::Value` into a [`JsonValue`], variant by variant:
/// numbers by `Number::as_u64`, `Number::as_i64` and their `Display` form,
/// arrays in order, object members in the order in which `Map::iter` yields
/// them.
#[verifier::external_body]
fn json_convert(value: &serde_json::Value) -> (converted: JsonValue)
    ensures
        converted@ == json_content(*value),
{
    match value {
        serde_json::Value::Null => JsonValue::Null,
        serde_json::Value::Bool(b) => JsonValue::Bool(*b),
        serde_json::Value::Number(n) => JsonValue::Number(
            JsonNumber { unsigned: n.as_u64(), signed: n.as_i64(), text: n.to_string() },
        ),
        serde_json::Value::String(s) => JsonValue::Text(s.clone()),
        serde_json::Value::Array(a) => JsonValue::Array(a.iter().map(json_convert).collect()),
        serde_json::Value::Object(o) => JsonValue::Object(
            o.iter().map(|(k, v)| (k.clone(), json_convert(v))).collect(),
        ),
    }
}

/// The compact JSON notation of a value: what `serde_json::to_string`
/// writes for the `serde_json::Value` that holds the same null, truth
/// values, texts, arrays and members, and for each number what
/// `serde_json::from_str` reads from its notation.
pub uninterp spec fn json_text(value: JsonView) -> Seq<char>;

/// Copies a [`JsonValue`] into a `serde_json::Value`, variant by variant;
/// a number is read back from its notation by `serde_json::from_str`.
/// Nothing is claimed about the copy.
#[verifier::external_body]
fn json_restore(value: &JsonValue) -> (restored: serde_json::Value) {
    match value {
        JsonValue::Null => serde_json::Value::Null,
        JsonValue::Bool(b) => serde_json::Value::Bool(*b),
        JsonValue::Number(n) => serde_json::from_str(&n.text).unwrap_or(serde_json::Value::Null),
        JsonValue::Text(t) => serde_json::Value::String(t.clone()),
        JsonValue::Array(a) => serde_json::Value::Array(a.iter().map(json_restore).collect()),
        JsonValue::Object(o) => serde_json::Value::Object(
            o.iter().map(|(k, v)| (k.clone(), json_restore(v))).collect(),
        ),
    }
}

/// `serde_json::to_string` for `serde_json::Value`, on the copy that
/// [`json_restore`] makes: the compact notation of the value; empty if it
/// cannot be written.
#[verifier::external_body]
fn json_write(value: &JsonValue) -> (text: String)
    ensures
        text@ == json_text(value@),
{
    serde_json::to_string(&json_restore(value)).unwrap_or_default()
}

/// `<serde_json::Error as Display>::fmt`: the error as a message. Nothing is
/// claimed about the wording.
#[verifier::external_body]
fn json_error_message(error: &serde_json::Error) -> (message: String) {
    error.to_string()
}

/// Parses a JSON document. A text that is not a JSON document is answered
/// with the parser's message.
pub fn parse_json(text: &str) -> (parsed: Result<JsonValue, String>)
    ensures
        parsed is Ok == json_document(text@) is Some,
        parsed is Ok ==> parsed->Ok_0@ == json_document(text@)->0,
{
    match json_parse(text) {
        Ok(value) => Ok(json_convert(&value)),
        Err(error) => Err(json_error_message(&error)),
    }
}

/// Position of the first member named `key` at or behind `from`, or the
/// number of members if there is none.
pub open spec fn member_position(
    members: Seq<(Seq<char>, JsonView)>,
    key: Seq<char>,
    from: int,
) -> int
    decreases members.len() - from,
{
    if from >= members.len() {
        members.len() as int
    } else if from >= 0 && members[from].0 == key {
        from
    } else {
        member_position(members, key, from + 1)
    }
}

impl JsonView {
    /// The member named `key` of an object; `None` for an object without
    /// such a member and for any other value.
    pub open spec fn get(self, key: Seq<char>) -> Option<JsonView> {
        match self {
            JsonView::Object(members) => {
                let at = member_position(members, key, 0);
                if 0 <= at < members.len() {
                    Some(members[at].1)
                } else {
                    None
                }
            },
            _ => None,
        }
    }

    /// The text of a string value.
    pub open spec fn as_text(self) -> Option<Seq<char>> {
        match self {
            JsonView::Text(t) => Some(t),
            _ => None,
        }
    }

    /// The number as a signed integer, if the value is one.
    pub open spec fn as_i64(self) -> Option<i64> {
        match self {
            JsonView::Number { unsigned, signed, text } => signed,
            _ => None,
        }
    }

    /// The number as an unsigned integer, if the value is one.
    pub open spec fn as_u64(self) -> Option<u64> {
        match self {
            JsonView::Number { unsigned, signed, text } => unsigned,
            _ => None,
        }
    }

    /// The items of an array value.
    pub open spec fn as_array(self) -> Option<Seq<JsonView>> {
        match self {
            JsonView::Array(items) => Some(items),
            _ => None,
        }
    }

    /// The text of the string member named `key`.
    pub open spec fn text_of(self, key: Seq<char>) -> Option<Seq<char>> {
        match self.get(key) {
            Some(member) => member.as_text(),
            None => None,
        }
    }

    /// The signed integer member named `key`.
    pub open spec fn i64_of(self, key: Seq<char>) -> Option<i64> {
        match self.get(key) {
            Some(member) => member.as_i64(),
            None => None,
        }
    }
}

/// Views of a sequence of JSON values, in order.
pub open spec fn json_views(items: Seq<JsonValue>) -> Seq<JsonView> {
    items.map_values(|item: JsonValue| item@)
}

/// Views of a sequence of object members, in order.
pub open spec fn member_views(members: Seq<(String, JsonValue)>) -> Seq<(Seq<char>, JsonView)> {
    members.map_values(|member: (String, JsonValue)| (member.0@, member.1@))
}

/// The view of an array holds the views of its items, and the view of an
/// object holds the views of its members.
pub proof fn lemma_json_view(value: JsonValue)
    ensures
        value matches JsonValue::Array(items) ==> value@ == JsonView::Array(json_views(items@)),
        value matches JsonValue::Object(members) ==> value@ == JsonView::Object(
            member_views(members@),
        ),
{
    match value {
        JsonValue::Array(items) => {
            assert(value@->Array_0 =~= json_views(items@));
        },
        JsonValue::Object(members) => {
            assert(value@->Object_0 =~= member_views(members@));
        },
        _ => {},
    }
}

impl JsonValue {
    /// The member named `key` of an object.
    pub fn get(&self, key: &str) -> (member: Option<&JsonValue>)
        ensures
            member is Some == self@.get(key@) is Some,
            member is Some ==> member->0@ == self@.get(key@)->0,
    {
        match self {
            JsonValue::Object(members) => {
                let wanted = String::from_str(key);
                let ghost views = member_views(members@);
                proof {
                    lemma_json_view(*self);
                }
                let mut i: usize = 0;
                while i < members.len()
                    invariant
                        i <= members.len(),
                        wanted@ == key@,
                        self@ == JsonView::Object(views),
                        views.len() == members@.len(),
                        forall|k: int|
                            0 <= k < members@.len() ==> (#[trigger] views[k]) == (
                                members@[k].0@,
                                members@[k].1@,
                            ),
                        member_position(views, key@, 0) == member_position(views, key@, i as int),
                    decreases members.len() - i,
                {
                    assert(views[i as int].0 == members@[i as int].0@);
                    if members[i].0 == wanted {
                        return Some(&members[i].1);
                    }
                    i += 1;
                }
                None
            },
            _ => None,
        }
    }

    /// The text of a string value.
    pub fn as_str(&self) -> (text: Option<&String>)
        ensures
            text is Some == self@.as_text() is Some,
            text is Some ==> text->0@ == self@.as_text()->0,
    {
        match self {
            JsonValue::Text(t) => Some(t),
            _ => None,
        }
    }

    /// The number as a signed integer, if the value is one.
    pub fn as_i64(&self) -> (number: Option<i64>)
        ensures
            number == self@.as_i64(),
    {
        match self {
            JsonValue::Number(n) => n.signed,
            _ => None,
        }
    }

    /// The number as an unsigned integer, if the value is one.
    pub fn as_u64(&self) -> (number: Option<u64>)
        ensures
            number == self@.as_u64(),
    {
        match self {
            JsonValue::Number(n) => n.unsigned,
            _ => None,
        }
    }

    /// The members of an object value, in document order of their keys.
    pub fn as_object(&self) -> (members: Option<&Vec<(String, JsonValue)>>)
        ensures
            members is Some == self@ is Object,
            members is Some ==> member_views(members->0@) == self@->Object_0,
    {
        match self {
            JsonValue::Object(members) => {
                proof {
                    lemma_json_view(*self);
                }
                Some(members)
            },
            _ => None,
        }
    }

    /// The compact JSON notation of the value.
    pub fn to_text(&self) -> (text: String)
        ensures
            text@ == json_text(self@),
    {
        json_write(self)
    }

    /// The items of an array value.
    pub fn as_array(&self) -> (items: Option<&Vec<JsonValue>>)
        ensures
            items is Some == self@.as_array() is Some,
            items is Some ==> json_views(items->0@) == self@.as_array()->0,
    {
        match self {
            JsonValue::Array(items) => {
                proof {
                    lemma_json_view(*self);
                }
                Some(items)
            },
            _ => None,
        }
    }

    /// The characters of the string member named `key`.
    pub fn text_of(&self, key: &str) -> (text: Option<Vec<char>>)
        ensures
            text is Some == self@.text_of(key@) is Some,
            text is Some ==> text->0@ == self@.text_of(key@)->0,
    {
        match self.get(key) {
            Some(member) => match member.as_str() {
                Some(t) => Some(to_chars(t.as_str())),
                None => None,
            },
            None => None,
        }
    }

    /// A copy of the string member named `key`.
    pub fn string_of(&self, key: &str) -> (text: Option<String>)
        ensures
            text is Some == self@.text_of(key@) is Some,
            text is Some ==> text->0@ == self@.text_of(key@)->0,
    {
        match self.get(key) {
            Some(member) => match member.as_str() {
                Some(t) => Some(t.clone()),
                None => None,
            },
            None => None,
        }
    }

    /// The signed integer member named `key`.
    pub fn i64_of(&self, key: &str) -> (number: Option<i64>)
        ensures
            number == self@.i64_of(key@),
    {
        match self.get(key) {
            Some(member) => member.as_i64(),
            None => None,
        }
    }
}

impl Clone for JsonNumber {
    fn clone(&self) -> (copy: Self)
        ensures
            copy == *self,
    {
        JsonNumber { unsigned: self.unsigned, signed: self.signed, text: self.text.clone() }
    }
}

/// A copy of a JSON value.
pub fn copy_json(value: &JsonValue) -> (copy: JsonValue)
    ensures
        copy@ == value@,
    decreases value,
{
    match value {
        JsonValue::Null => JsonValue::Null,
        JsonValue::Bool(b) => JsonValue::Bool(*b),
        JsonValue::Number(n) => JsonValue::Number(n.clone()),
        JsonValue::Text(t) => JsonValue::Text(t.clone()),
        JsonValue::Array(items) => {
            let mut copies: Vec<JsonValue> = Vec::new();
            let mut i: usize = 0;
            while i < items.len()
                invariant
                    i <= items.len(),
                    *value == JsonValue::Array(*items),
                    copies@.len() == i,
                    forall|k: int| 0 <= k < i ==> (#[trigger] copies@[k])@ == items@[k]@,
                decreases items.len() - i,
            {
                proof {
                    vstd::std_specs::vec::axiom_vec_index_decreases(*items, i as int);
                    assert(value is Array && value->Array_0 == *items);
                    assert(decreases_to!(*value => value->Array_0));
                    assert(decreases_to!(*items => items[i as int]));
                    assert(decreases_to!(*value => items[i as int]));
                }
                copies.push(copy_json(&items[i]));
                i += 1;
            }
            let copy = JsonValue::Array(copies);
            proof {
                lemma_json_view(copy);
                lemma_json_view(*value);
                assert(json_views(copies@) =~= json_views(items@));
            }
            copy
        },
        JsonValue::Object(members) => {
            let mut copies: Vec<(String, JsonValue)> = Vec::new();
            let mut i: usize = 0;
            while i < members.len()
                invariant
                    i <= members.len(),
                    *value == JsonValue::Object(*members),
                    copies@.len() == i,
                    forall|k: int|
                        0 <= k < i ==> (#[trigger] copies@[k]).0@ == members@[k].0@ && copies@[k].1@
                            == members@[k].1@,
                decreases members.len() - i,
            {
                proof {
                    vstd::std_specs::vec::axiom_vec_index_decreases(*members, i as int);
                    assert(value is Object && value->Object_0 == *members);
                    assert(decreases_to!(*value => value->Object_0));
                    assert(decreases_to!(*members => members[i as int]));
                    assert(decreases_to!(members[i as int] => members[i as int].1));
                    assert(decreases_to!(*value => members[i as int].1));
                }
                copies.push((members[i].0.clone(), copy_json(&members[i].1)));
                i += 1;
            }
            let copy = JsonValue::Object(copies);
            proof {
                lemma_json_view(copy);
                lemma_json_view(*value);
                assert(member_views(copies@) =~= member_views(members@));
            }
            copy
        },
    }
}

impl Clone for JsonValue {
    fn clone(&self) -> (copy: Self)
        ensures
            copy@ == self@,
    {
        copy_json(self)
    }
}

} // verus!
