//! JSON documents as plain values, and the parser that reads them.

use vstd::prelude::*;

verus! {

/// A JSON document. A number is kept where it is an unsigned integer of 64
/// bits, the only kind that the wire format uses; any other number is
/// `Number(None)`.
#[derive(Debug)]
pub enum Json {
    Null,
    Bool(bool),
    Number(Option<u64>),
    Text(String),
    Array(Vec<Json>),
    Object(Vec<Member>),
}

/// One entry of a JSON object.
#[derive(Debug)]
pub struct Member {
    pub key: String,
    pub value: Json,
}

/// A JSON document as plain values.
pub enum JsonView {
    Null,
    Bool(bool),
    Number(Option<u64>),
    Text(Seq<char>),
    Array(Seq<JsonView>),
    Object(Seq<MemberView>),
}

/// One entry of a JSON object as plain values.
pub struct MemberView {
    pub key: Seq<char>,
    pub value: JsonView,
}

/// The document as plain values.
pub open spec fn json_view(document: Json) -> JsonView
    decreases document,
{
    match document {
        Json::Null => JsonView::Null,
        Json::Bool(flag) => JsonView::Bool(flag),
        Json::Number(number) => JsonView::Number(number),
        Json::Text(text) => JsonView::Text(text@),
        Json::Array(items) => JsonView::Array(
            Seq::new(
                items@.len(),
                |i: int|
                    if 0 <= i < items@.len() {
                        json_view(items@[i])
                    } else {
                        JsonView::Null
                    },
            ),
        ),
        Json::Object(members) => JsonView::Object(
            Seq::new(
                members@.len(),
                |i: int|
                    if 0 <= i < members@.len() {
                        MemberView { key: members@[i].key@, value: json_view(members@[i].value) }
                    } else {
                        MemberView { key: Seq::empty(), value: JsonView::Null }
                    },
            ),
        ),
    }
}

impl View for Json {
    type V = JsonView;

    open spec fn view(&self) -> JsonView {
        json_view(*self)
    }
}

/// What `serde_json::from_str` makes of a text: the document, or the message
/// of the error with which it rejects the text.
pub uninterp spec fn json_parsed(text: Seq<char>) -> Result<JsonView, Seq<char>>;

#[verifier::external_type_specification]
#[verifier::external_body]
pub struct ExValue(serde_json::Value);

/// Rewrites a `serde_json::Value` as a `Json`, variant for variant; a number
/// goes through `serde_json::Number::as_u64`. It serves `parse_json` alone,
/// and nothing is claimed of it here.
#[verifier::external_body]
fn json_from_value(value: &serde_json::Value) -> Json {
    match value {
        serde_json::Value::Null => Json::Null,
        serde_json::Value::Bool(flag) => Json::Bool(*flag),
        serde_json::Value::Number(number) => Json::Number(number.as_u64()),
        serde_json::Value::String(text) => Json::Text(text.clone()),
        serde_json::Value::Array(items) => Json::Array(items.iter().map(json_from_value).collect()),
        serde_json::Value::Object(map) => Json::Object(
            map.iter().map(|(k, v)| Member { key: k.clone(), value: json_from_value(v) }).collect(),
        ),
    }
}

/// Calls `serde_json::from_str` for a `serde_json::Value`. Trusted: the
/// result is what that parser makes of these characters, the document
/// rewritten as a `Json` or the text of the parser's error.
#[verifier::external_body]
pub(crate) fn parse_json(text: &str) -> (parsed: Result<Json, String>)
    ensures
        json_parsed(text@) == parsed_view(parsed),
{
    match serde_json::from_str::<serde_json::Value>(text) {
        Ok(value) => Ok(json_from_value(&value)),
        Err(error) => Err(error.to_string()),
    }
}

/// What a parser returned, as plain values.
pub open spec fn parsed_view(parsed: Result<Json, String>) -> Result<JsonView, Seq<char>> {
    match parsed {
        Ok(document) => Ok(document@),
        Err(message) => Err(message@),
    }
}

/// The items of an array as plain values.
pub open spec fn item_views(items: Seq<Json>) -> Seq<JsonView> {
    Seq::new(items.len(), |i: int| items[i]@)
}

/// The members of an object as plain values.
pub open spec fn member_views(members: Seq<Member>) -> Seq<MemberView> {
    Seq::new(members.len(), |i: int| MemberView { key: members[i].key@, value: members[i].value@ })
}

/// The view of an array is made of the views of its items, that of an
/// object of the views of its members.
pub proof fn lemma_view_of_parts(document: Json)
    ensures
        document matches Json::Array(items) ==> document@ == JsonView::Array(item_views(items@)),
        document matches Json::Object(members) ==> document@ == JsonView::Object(
            member_views(members@),
        ),
{
    match document {
        Json::Array(items) => {
            assert(document@->Array_0 =~= item_views(items@));
        },
        Json::Object(members) => {
            assert(document@->Object_0 =~= member_views(members@));
        },
        _ => {},
    }
}

/// The value of the first member with the given key.
pub open spec fn member_value(members: Seq<MemberView>, key: Seq<char>) -> Option<JsonView>
    decreases members.len(),
{
    if members.len() == 0 {
        None
    } else if members[0].key == key {
        Some(members[0].value)
    } else {
        member_value(members.skip(1), key)
    }
}

/// The text under a key, where the key is there and holds a text.
pub open spec fn text_member(members: Seq<MemberView>, key: Seq<char>) -> Option<Seq<char>> {
    match member_value(members, key) {
        Some(JsonView::Text(text)) => Some(text),
        _ => None,
    }
}

/// The number under a key, where the key is there and holds an unsigned
/// integer.
pub open spec fn number_member(members: Seq<MemberView>, key: Seq<char>) -> Option<u64> {
    match member_value(members, key) {
        Some(JsonView::Number(Some(number))) => Some(number),
        _ => None,
    }
}

/// A value that may be there, as plain values.
pub open spec fn found_view(found: Option<&Json>) -> Option<JsonView> {
    match found {
        Some(value) => Some(value@),
        None => None,
    }
}

/// Finds the first member with the given key.
pub fn find_member<'a>(members: &'a Vec<Member>, key: &str) -> (found: Option<&'a Json>)
    ensures
        found_view(found) == member_value(member_views(members@), key@),
{
    let wanted = key.to_owned();
    let ghost views = member_views(members@);
    let mut i: usize = 0;
    assert(views.skip(0) =~= views);
    while i < members.len()
        invariant
            i <= members.len(),
            wanted@ == key@,
            views == member_views(members@),
            member_value(views, key@) == member_value(views.skip(i as int), key@),
        decreases members.len() - i,
    {
        assert(views.skip(i as int)[0] == views[i as int]);
        if members[i].key == wanted {
            return Some(&members[i].value);
        }
        assert(views.skip(i as int).skip(1) =~= views.skip(i + 1));
        i += 1;
    }
    None
}

/// Reads the text under a key.
pub fn text_of(members: &Vec<Member>, key: &str) -> (text: Option<String>)
    ensures
        match text {
            Some(t) => text_member(member_views(members@), key@) == Some(t@),
            None => text_member(member_views(members@), key@) is None,
        },
{
    match find_member(members, key) {
        Some(Json::Text(text)) => Some(text.clone()),
        _ => None,
    }
}

/// Reads the unsigned integer under a key.
pub fn number_of(members: &Vec<Member>, key: &str) -> (number: Option<u64>)
    ensures
        number == number_member(member_views(members@), key@),
{
    match find_member(members, key) {
        Some(Json::Number(Some(number))) => Some(*number),
        _ => None,
    }
}

} // verus!
