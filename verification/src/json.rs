//! JSON values as the app-server protocol and the session transcripts use them.

use serde_json::{Number, Value};
use vstd::prelude::*;
use vstd::string::*;

use crate::text::{same_text, signed_decimal};

verus! {

/// A number of a JSON document.
#[derive(Debug, PartialEq, Eq)]
pub enum JsonNumber {
    Unsigned(u64),
    Signed(i64),
    /// A number with a fraction or an exponent, as its shortest decimal text.
    Decimal(String),
}

/// A JSON value. An object keeps its members in the order of the document's
/// map, so the first member is the one that the map yields first.
#[derive(Debug, PartialEq, Eq)]
pub enum Json {
    Null,
    Bool(bool),
    Number(JsonNumber),
    Text(String),
    Array(Vec<Json>),
    Object(Vec<(String, Json)>),
}

/// The mathematical form of a number.
pub enum JsonNumberView {
    Integer(int),
    Decimal(Seq<char>),
}

/// The mathematical form of a JSON value.
pub enum JsonView {
    Null,
    Bool(bool),
    Number(JsonNumberView),
    Text(Seq<char>),
    Array(Seq<JsonView>),
    Object(Seq<(Seq<char>, JsonView)>),
}

impl View for JsonNumber {
    type V = JsonNumberView;

    open spec fn view(&self) -> JsonNumberView {
        match self {
            JsonNumber::Unsigned(value) => JsonNumberView::Integer(*value as int),
            JsonNumber::Signed(value) => JsonNumberView::Integer(*value as int),
            JsonNumber::Decimal(text) => JsonNumberView::Decimal(text@),
        }
    }
}

impl View for Json {
    type V = JsonView;

    open spec fn view(&self) -> JsonView
        decreases self,
    {
        match self {
            Json::Null => JsonView::Null,
            Json::Bool(value) => JsonView::Bool(*value),
            Json::Number(number) => JsonView::Number(number@),
            Json::Text(text) => JsonView::Text(text@),
            Json::Array(items) => JsonView::Array(
                Seq::new(
                    items@.len(),
                    |i: int|
                        if 0 <= i < items@.len() {
                            items@[i].view()
                        } else {
                            JsonView::Null
                        },
                ),
            ),
            Json::Object(members) => JsonView::Object(
                Seq::new(
                    members@.len(),
                    |i: int|
                        (
                            members@[i].0@,
                            if 0 <= i < members@.len() {
                                members@[i].1.view()
                            } else {
                                JsonView::Null
                            },
                        ),
                ),
            ),
        }
    }
}

/// The position of the first member with a key.
pub open spec fn member_index(members: Seq<(Seq<char>, JsonView)>, key: Seq<char>) -> Option<int>
    decreases members.len(),
{
    if members.len() == 0 {
        None
    } else if members[0].0 == key {
        Some(0)
    } else {
        match member_index(members.drop_first(), key) {
            Some(i) => Some(i + 1),
            None => None,
        }
    }
}

impl JsonView {
    /// The member of an object with the given key.
    pub open spec fn get(self, key: Seq<char>) -> Option<JsonView> {
        match self {
            JsonView::Object(members) => match member_index(members, key) {
                Some(i) => Some(members[i].1),
                None => None,
            },
            _ => None,
        }
    }

    /// The characters of a text value.
    pub open spec fn as_str(self) -> Option<Seq<char>> {
        match self {
            JsonView::Text(text) => Some(text),
            _ => None,
        }
    }

    /// The elements of an array.
    pub open spec fn as_array(self) -> Option<Seq<JsonView>> {
        match self {
            JsonView::Array(items) => Some(items),
            _ => None,
        }
    }

    /// The value of an integer.
    pub open spec fn as_integer(self) -> Option<int> {
        match self {
            JsonView::Number(JsonNumberView::Integer(value)) => Some(value),
            _ => None,
        }
    }

    /// The value of an integer that a signed machine number can hold.
    pub open spec fn as_i64(self) -> Option<int> {
        match self.as_integer() {
            Some(value) => if i64::MIN <= value <= i64::MAX {
                Some(value)
            } else {
                None
            },
            None => None,
        }
    }

    /// The value of an integer that an unsigned machine number can hold.
    pub open spec fn as_u64(self) -> Option<int> {
        match self.as_integer() {
            Some(value) => if 0 <= value <= u64::MAX {
                Some(value)
            } else {
                None
            },
            None => None,
        }
    }

    /// The text member of an object with the given key.
    pub open spec fn get_str(self, key: Seq<char>) -> Option<Seq<char>> {
        match self.get(key) {
            Some(value) => value.as_str(),
            None => None,
        }
    }

    /// The elements of the array member with the given key; none where there
    /// is no such array.
    pub open spec fn get_items(self, key: Seq<char>) -> Seq<JsonView> {
        match self.get(key) {
            Some(value) => match value.as_array() {
                Some(items) => items,
                None => seq![],
            },
            None => seq![],
        }
    }
}

/// The mathematical form of a run of values.
pub open spec fn json_views(items: Seq<Json>) -> Seq<JsonView> {
    Seq::new(items.len(), |i: int| items[i]@)
}

/// The mathematical form of the members of an object.
pub open spec fn member_views(members: Seq<(String, Json)>) -> Seq<(Seq<char>, JsonView)> {
    Seq::new(members.len(), |i: int| (members[i].0@, members[i].1@))
}

pub broadcast proof fn lemma_array_view(items: Vec<Json>)
    ensures
        (#[trigger] Json::Array(items).view()) == JsonView::Array(json_views(items@)),
{
    let json = Json::Array(items);
    assert(json.view()->Array_0 =~= json_views(items@));
}

pub broadcast proof fn lemma_object_view(members: Vec<(String, Json)>)
    ensures
        (#[trigger] Json::Object(members).view()) == JsonView::Object(member_views(members@)),
{
    let json = Json::Object(members);
    let view = json.view()->Object_0;
    assert(view =~= member_views(members@));
}

proof fn lemma_member_index(members: Seq<(Seq<char>, JsonView)>, key: Seq<char>, i: int)
    requires
        0 <= i < members.len(),
        members[i].0 == key,
        forall|j: int| 0 <= j < i ==> (#[trigger] members[j]).0 != key,
    ensures
        member_index(members, key) == Some(i),
    decreases i,
{
    if i > 0 {
        assert(members[0].0 != key);
        let rest = members.drop_first();
        assert forall|j: int| 0 <= j < i - 1 implies (#[trigger] rest[j]).0 != key by {
            assert(rest[j] == members[j + 1]);
        }
        lemma_member_index(rest, key, i - 1);
    }
}

proof fn lemma_member_absent(members: Seq<(Seq<char>, JsonView)>, key: Seq<char>)
    requires
        forall|j: int| 0 <= j < members.len() ==> (#[trigger] members[j]).0 != key,
    ensures
        member_index(members, key) is None,
    decreases members.len(),
{
    if members.len() > 0 {
        assert(members[0].0 != key);
        let rest = members.drop_first();
        assert forall|j: int| 0 <= j < rest.len() implies (#[trigger] rest[j]).0 != key by {
            assert(rest[j] == members[j + 1]);
        }
        lemma_member_absent(rest, key);
    }
}

impl Json {
    /// The member of an object with the given key.
    pub fn get(&self, key: &str) -> (member: Option<&Json>)
        ensures
            match member {
                Some(value) => self@.get(key@) == Some(value@),
                None => self@.get(key@) is None,
            },
    {
        match self {
            Json::Object(members) => {
                let ghost views = member_views(members@);
                proof {
                    lemma_object_view(*members);
                }
                let mut i: usize = 0;
                while i < members.len()
                    invariant
                        i <= members.len(),
                        views == member_views(members@),
                        self@ == JsonView::Object(views),
                        forall|j: int| 0 <= j < i ==> (#[trigger] views[j]).0 != key@,
                    decreases members.len() - i,
                {
                    if same_text(members[i].0.as_str(), key) {
                        proof {
                            lemma_member_index(views, key@, i as int);
                        }
                        return Some(&members[i].1);
                    }
                    i += 1;
                }
                proof {
                    lemma_member_absent(views, key@);
                }
                None
            },
            _ => None,
        }
    }

    /// The characters of a text value.
    pub fn as_str(&self) -> (text: Option<&str>)
        ensures
            match text {
                Some(text) => self@.as_str() == Some(text@),
                None => self@.as_str() is None,
            },
    {
        match self {
            Json::Text(text) => Some(text.as_str()),
            _ => None,
        }
    }

    /// The elements of an array.
    pub fn as_array(&self) -> (items: Option<&Vec<Json>>)
        ensures
            match items {
                Some(items) => self@.as_array() == Some(json_views(items@)),
                None => self@.as_array() is None,
            },
    {
        match self {
            Json::Array(items) => {
                proof {
                    lemma_array_view(*items);
                }
                Some(items)
            },
            _ => None,
        }
    }

    /// The text member of an object with the given key.
    pub fn get_str(&self, key: &str) -> (text: Option<&str>)
        ensures
            match text {
                Some(text) => self@.get_str(key@) == Some(text@),
                None => self@.get_str(key@) is None,
            },
    {
        match self.get(key) {
            Some(value) => value.as_str(),
            None => None,
        }
    }

    /// The array member with the given key.
    pub fn get_array(&self, key: &str) -> (items: Option<&Vec<Json>>)
        ensures
            match items {
                Some(items) => self@.get(key@) is Some && self@.get_items(key@) == json_views(
                    items@,
                ) && self@.get(key@)->0.as_array() is Some,
                None => self@.get_items(key@).len() == 0 && (self@.get(key@) matches Some(value)
                    ==> value.as_array() is None),
            },
    {
        match self.get(key) {
            Some(value) => value.as_array(),
            None => None,
        }
    }

    /// The value of an integer, where it fits.
    pub fn as_i64(&self) -> (value: Option<i64>)
        ensures
            match value {
                Some(value) => self@.as_i64() == Some(value as int),
                None => self@.as_i64() is None,
            },
    {
        match self {
            Json::Number(JsonNumber::Signed(value)) => Some(*value),
            Json::Number(JsonNumber::Unsigned(value)) => {
                if *value <= 0x7FFF_FFFF_FFFF_FFFF {
                    Some(*value as i64)
                } else {
                    None
                }
            },
            _ => None,
        }
    }

    /// The value of an integer that is not negative, where it fits.
    pub fn as_u64(&self) -> (value: Option<u64>)
        ensures
            match value {
                Some(value) => self@.as_u64() == Some(value as int),
                None => self@.as_u64() is None,
            },
    {
        match self {
            Json::Number(JsonNumber::Unsigned(value)) => Some(*value),
            Json::Number(JsonNumber::Signed(value)) => {
                if *value >= 0 {
                    Some(*value as u64)
                } else {
                    None
                }
            },
            _ => None,
        }
    }

    /// A value with the same contents.
    pub fn duplicate(&self) -> (json: Json)
        ensures
            json@ == self@,
        decreases self,
    {
        match self {
            Json::Null => Json::Null,
            Json::Bool(value) => Json::Bool(*value),
            Json::Number(JsonNumber::Unsigned(value)) => Json::Number(JsonNumber::Unsigned(*value)),
            Json::Number(JsonNumber::Signed(value)) => Json::Number(JsonNumber::Signed(*value)),
            Json::Number(JsonNumber::Decimal(text)) => Json::Number(
                JsonNumber::Decimal(text.clone()),
            ),
            Json::Text(text) => Json::Text(text.clone()),
            Json::Array(items) => {
                let mut copies: Vec<Json> = Vec::new();
                let mut i: usize = 0;
                while i < items.len()
                    invariant
                        i <= items.len(),
                        copies.len() == i,
                        *self == Json::Array(*items),
                        forall|j: int| 0 <= j < i ==> (#[trigger] copies@[j])@ == items@[j]@,
                    decreases items.len() - i,
                {
                    assert(decreases_to!(self => self->Array_0@[i as int]));
                    copies.push(items[i].duplicate());
                    i += 1;
                }
                proof {
                    lemma_array_view(*items);
                    lemma_array_view(copies);
                    assert(json_views(copies@) =~= json_views(items@));
                }
                Json::Array(copies)
            },
            Json::Object(members) => {
                let mut copies: Vec<(String, Json)> = Vec::new();
                let mut i: usize = 0;
                while i < members.len()
                    invariant
                        i <= members.len(),
                        copies.len() == i,
                        *self == Json::Object(*members),
                        forall|j: int|
                            0 <= j < i ==> (#[trigger] copies@[j]).0@ == members@[j].0@
                                && copies@[j].1@ == members@[j].1@,
                    decreases members.len() - i,
                {
                    assert(decreases_to!(self => self->Object_0@[i as int].1));
                    copies.push((members[i].0.clone(), members[i].1.duplicate()));
                    i += 1;
                }
                proof {
                    lemma_object_view(*members);
                    lemma_object_view(copies);
                    assert(member_views(copies@) =~= member_views(members@));
                }
                Json::Object(copies)
            },
        }
    }
}

/// A text value.
pub fn json_str(text: &str) -> (json: Json)
    ensures
        json@ == JsonView::Text(text@),
{
    Json::Text(text.to_owned())
}

/// A member of an object under construction.
pub fn member(key: &str, value: Json) -> (member: (String, Json))
    ensures
        (member.0@, member.1@) == (key@, value@),
{
    (key.to_owned(), value)
}

/// An object with the given members.
pub open spec fn object(members: Seq<(Seq<char>, JsonView)>) -> JsonView {
    JsonView::Object(members)
}

/// An object without members.
pub fn object0() -> (json: Json)
    ensures
        json@ == object(seq![]),
{
    let members: Vec<(String, Json)> = Vec::new();
    proof {
        lemma_object_view(members);
        assert(member_views(members@) =~= seq![]);
    }
    Json::Object(members)
}

/// An object with one member.
pub fn object1(first: (String, Json)) -> (json: Json)
    ensures
        json@ == object(seq![(first.0@, first.1@)]),
{
    let mut members: Vec<(String, Json)> = Vec::new();
    members.push(first);
    proof {
        lemma_object_view(members);
        assert(member_views(members@) =~= seq![(first.0@, first.1@)]);
    }
    Json::Object(members)
}

/// An object with two members.
pub fn object2(first: (String, Json), second: (String, Json)) -> (json: Json)
    ensures
        json@ == object(seq![(first.0@, first.1@), (second.0@, second.1@)]),
{
    let mut members: Vec<(String, Json)> = Vec::new();
    members.push(first);
    members.push(second);
    proof {
        lemma_object_view(members);
        assert(member_views(members@) =~= seq![(first.0@, first.1@), (second.0@, second.1@)]);
    }
    Json::Object(members)
}

/// An object with three members.
pub fn object3(first: (String, Json), second: (String, Json), third: (String, Json)) -> (json: Json)
    ensures
        json@ == object(
            seq![(first.0@, first.1@), (second.0@, second.1@), (third.0@, third.1@)],
        ),
{
    let mut members: Vec<(String, Json)> = Vec::new();
    members.push(first);
    members.push(second);
    members.push(third);
    proof {
        lemma_object_view(members);
        assert(member_views(members@) =~= seq![
            (first.0@, first.1@),
            (second.0@, second.1@),
            (third.0@, third.1@),
        ]);
    }
    Json::Object(members)
}

/// An object with the members of two objects, one after the other.
pub fn joined_object(first: Json, second: Json) -> (json: Json)
    requires
        first@ is Object,
        second@ is Object,
    ensures
        json@ == object(first@->Object_0 + second@->Object_0),
{
    match (first, second) {
        (Json::Object(mut members), Json::Object(mut others)) => {
            let ghost before = members@;
            let ghost after = others@;
            proof {
                lemma_object_view(members);
                lemma_object_view(others);
            }
            members.append(&mut others);
            proof {
                lemma_object_view(members);
                assert(member_views(members@) =~= member_views(before) + member_views(after));
            }
            Json::Object(members)
        },
        _ => Json::Null,
    }
}

/// An array of the given values.
pub fn json_array(items: Vec<Json>) -> (json: Json)
    ensures
        json@ == JsonView::Array(json_views(items@)),
{
    proof {
        lemma_array_view(items);
    }
    Json::Array(items)
}

/// `serde_json`'s own value type; a document is parsed into it first.
#[verifier::external_type_specification]
#[verifier::external_body]
pub struct ExValue(Value);

/// What a value of `serde_json` holds.
pub uninterp spec fn value_json(value: Value) -> JsonView;

/// What the JSON document in some bytes says, or what is wrong with them.
pub uninterp spec fn json_reading(bytes: Seq<u8>) -> Result<JsonView, Seq<char>>;

/// What the JSON document in some bytes says; nothing where they are none.
pub open spec fn json_document(bytes: Seq<u8>) -> Option<JsonView> {
    match json_reading(bytes) {
        Ok(json) => Some(json),
        Err(_) => None,
    }
}

/// Copies the contents of a `serde_json::Value`: its variants one for one, a
/// map's members in the map's order, and a number that is no integer as the
/// text that `Number` prints for it.
#[verifier::external_body]
fn json_from_value(value: &Value) -> (json: Json)
    ensures
        json@ == value_json(*value),
{
    match value {
        Value::Null => Json::Null,
        Value::Bool(value) => Json::Bool(*value),
        Value::Number(number) => Json::Number(match (number.as_u64(), number.as_i64()) {
            (Some(value), _) => JsonNumber::Unsigned(value),
            (None, Some(value)) => JsonNumber::Signed(value),
            (None, None) => JsonNumber::Decimal(number.to_string()),
        }),
        Value::String(text) => Json::Text(text.clone()),
        Value::Array(items) => Json::Array(items.iter().map(json_from_value).collect()),
        Value::Object(members) => Json::Object(
            members.iter().map(|(k, v)| (k.clone(), json_from_value(v))).collect()),
    }
}

/// What a value becomes as a `serde_json::Value`. Its map orders the members of an
/// object by their keys and keeps the last of several with the same key.
pub uninterp spec fn converted_json(json: JsonView) -> JsonView;

/// What `serde_json` prints for a value.
pub uninterp spec fn printed_json(json: JsonView) -> Seq<char>;

/// Copies a value into a `serde_json::Value`: the variants one for one, the members
/// of an object by collecting them into a `serde_json::Map`, and a number that is
/// no integer by `Number::from_f64`. What the result holds is a function of the
/// value; a value without parts in it is kept as it is.
#[verifier::external_body]
fn value_from_json(json: &Json) -> (value: Value)
    ensures
        value_json(value) == converted_json(json@),
        match json@ {
            JsonView::Null
            | JsonView::Bool(_)
            | JsonView::Text(_)
            | JsonView::Number(JsonNumberView::Integer(_)) => value_json(value) == json@,
            _ => true,
        },
{
    match json {
        Json::Null => Value::Null,
        Json::Bool(value) => Value::Bool(*value),
        Json::Number(JsonNumber::Unsigned(value)) => Value::from(*value),
        Json::Number(JsonNumber::Signed(value)) => Value::from(*value),
        Json::Number(JsonNumber::Decimal(text)) => text.parse().ok().and_then(Number::from_f64)
            .map_or(Value::Null, Value::Number),
        Json::Text(text) => Value::String(text.clone()),
        Json::Array(items) => Value::Array(items.iter().map(value_from_json).collect()),
        Json::Object(members) => Value::Object(
            members.iter().map(|(k, v)| (k.clone(), value_from_json(v))).collect()),
    }
}

/// `to_string` of a `serde_json::Value`, which prints it without white space. The
/// text is a function of what the value holds; an integer is printed in decimal.
#[verifier::external_body]
fn value_text(value: &Value) -> (text: String)
    ensures
        text@ == printed_json(value_json(*value)),
        value_json(*value) matches JsonView::Number(JsonNumberView::Integer(n)) ==> text@
            == signed_decimal(n),
{
    value.to_string()
}

/// A value in print, without white space, the members of an object in the order of
/// their keys.
pub open spec fn json_text(json: JsonView) -> Seq<char> {
    printed_json(converted_json(json))
}

/// A value in print.
pub fn print_json(json: &Json) -> (text: String)
    ensures
        text@ == json_text(json@),
        json@ matches JsonView::Number(JsonNumberView::Integer(n)) ==> text@ == signed_decimal(n),
{
    value_text(&value_from_json(json))
}

/// `serde_json::from_slice` into a `serde_json::Value`, with the text of its
/// error. Whether it succeeds, what the value holds, and what the error says, are
/// functions of the bytes alone.
#[verifier::external_body]
fn value_from_slice(bytes: &[u8]) -> (value: Result<Value, String>)
    ensures
        match value {
            Ok(value) => json_reading(bytes@) == Ok::<JsonView, Seq<char>>(value_json(value)),
            Err(text) => json_reading(bytes@) == Err::<JsonView, Seq<char>>(text@),
        },
{
    serde_json::from_slice::<Value>(bytes).map_err(|error| error.to_string())
}

/// Parses a JSON document, or tells what is wrong with it.
pub fn read_json(bytes: &[u8]) -> (json: Result<Json, String>)
    ensures
        match json {
            Ok(json) => json_reading(bytes@) == Ok::<JsonView, Seq<char>>(json@),
            Err(text) => json_reading(bytes@) == Err::<JsonView, Seq<char>>(text@),
        },
{
    match value_from_slice(bytes) {
        Ok(value) => Ok(json_from_value(&value)),
        Err(text) => Err(text),
    }
}

/// Parses a JSON document.
pub fn parse_json(bytes: &[u8]) -> (json: Option<Json>)
    ensures
        match json {
            Some(json) => json_document(bytes@) == Some(json@),
            None => json_document(bytes@) is None,
        },
{
    match read_json(bytes) {
        Ok(json) => Some(json),
        Err(_) => None,
    }
}

} // verus!
