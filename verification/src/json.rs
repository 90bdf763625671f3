//! JSON objects and arrays as the library reads them: a flat list of
//! members, each with its scalar value and its serialized text.

use vstd::prelude::*;
use serde_json::Value;
use crate::text::same_text;

verus! {

/// The value of one member, as far as the library looks into it.
#[derive(Clone, Debug, PartialEq, Eq)]
pub enum JsonScalar {
    Null,
    Bool(bool),
    /// A number, as the bits of its IEEE-754 double.
    Number(u64),
    Text(String),
    /// An array or an object.
    Composite,
}

pub enum JsonScalarView {
    Null,
    Bool(bool),
    Number(u64),
    Text(Seq<char>),
    Composite,
}

impl View for JsonScalar {
    type V = JsonScalarView;

    open spec fn view(&self) -> JsonScalarView {
        match self {
            JsonScalar::Null => JsonScalarView::Null,
            JsonScalar::Bool(b) => JsonScalarView::Bool(*b),
            JsonScalar::Number(n) => JsonScalarView::Number(*n),
            JsonScalar::Text(s) => JsonScalarView::Text(s@),
            JsonScalar::Composite => JsonScalarView::Composite,
        }
    }
}

/// One member of a JSON object, or one element of an array.
#[derive(Clone, Debug, PartialEq, Eq)]
pub struct JsonMember {
    /// The member's key; empty for an element of an array.
    pub key: String,
    pub value: JsonScalar,
    /// The member's value, serialized as compact JSON.
    pub text: String,
}

pub struct JsonMemberView {
    pub key: Seq<char>,
    pub value: JsonScalarView,
    pub text: Seq<char>,
}

impl View for JsonMember {
    type V = JsonMemberView;

    open spec fn view(&self) -> JsonMemberView {
        JsonMemberView { key: self.key@, value: self.value@, text: self.text@ }
    }
}

pub open spec fn members_view(members: Seq<JsonMember>) -> Seq<JsonMemberView> {
    Seq::new(members.len(), |i: int| members[i]@)
}

/// The first member called `key`, if there is one.
pub open spec fn member(members: Seq<JsonMemberView>, key: Seq<char>) -> Option<JsonMemberView>
    decreases members.len(),
{
    if members.len() == 0 {
        None
    } else if members[0].key == key {
        Some(members[0])
    } else {
        member(members.drop_first(), key)
    }
}

/// A member that must be there and be a string.
pub open spec fn required_text(members: Seq<JsonMemberView>, key: Seq<char>) -> Option<Seq<char>> {
    match member(members, key) {
        Some(m) => match m.value {
            JsonScalarView::Text(s) => Some(s),
            _ => None,
        },
        None => None,
    }
}

/// A member that must be there and be a number.
pub open spec fn required_number(members: Seq<JsonMemberView>, key: Seq<char>) -> Option<u64> {
    match member(members, key) {
        Some(m) => match m.value {
            JsonScalarView::Number(n) => Some(n),
            _ => None,
        },
        None => None,
    }
}

/// A member that may be missing or `null`, and is a string otherwise: the
/// outer `None` stands for a value of another kind.
pub open spec fn optional_text(members: Seq<JsonMemberView>, key: Seq<char>) -> Option<
    Option<Seq<char>>,
> {
    match member(members, key) {
        Some(m) => match m.value {
            JsonScalarView::Text(s) => Some(Some(s)),
            JsonScalarView::Null => Some(None),
            _ => None,
        },
        None => Some(None),
    }
}

/// A member that may be missing or `null`, and is a number otherwise.
pub open spec fn optional_number(members: Seq<JsonMemberView>, key: Seq<char>) -> Option<
    Option<u64>,
> {
    match member(members, key) {
        Some(m) => match m.value {
            JsonScalarView::Number(n) => Some(Some(n)),
            JsonScalarView::Null => Some(None),
            _ => None,
        },
        None => Some(None),
    }
}

/// A member that may be missing or `null`, and is `true` or `false`
/// otherwise.
pub open spec fn optional_bool(members: Seq<JsonMemberView>, key: Seq<char>) -> Option<
    Option<bool>,
> {
    match member(members, key) {
        Some(m) => match m.value {
            JsonScalarView::Bool(b) => Some(Some(b)),
            JsonScalarView::Null => Some(None),
            _ => None,
        },
        None => Some(None),
    }
}

/// What `serde_json` reads from a text as the members of one JSON object,
/// or what it says against the text where it does not read it so.
pub uninterp spec fn parsed_object(text: Seq<char>) -> Result<Seq<JsonMemberView>, Seq<char>>;

pub open spec fn parse_view(r: Result<Vec<JsonMember>, String>) -> Result<
    Seq<JsonMemberView>,
    Seq<char>,
> {
    match r {
        Ok(members) => Ok(members_view(members@)),
        Err(why) => Err(why@),
    }
}

/// What `serde_json` reads from a text as the elements of one JSON array,
/// each as a member without a key, or what it says against the text where it
/// does not read it so.
pub uninterp spec fn parsed_array(text: Seq<char>) -> Result<Seq<JsonMemberView>, Seq<char>>;

#[verifier::external_type_specification]
#[verifier::external_body]
pub struct ExJsonValue(serde_json::Value);

/// Copies one value out of `serde_json`: its variant (a number as the bits
/// of what `as_f64` gives) and what `to_string` writes for it.
#[verifier::external_body]
fn member_from(key: String, value: Value) -> JsonMember {
    JsonMember {
        key,
        text: value.to_string(),
        value: match value {
            Value::Null => JsonScalar::Null,
            Value::Bool(b) => JsonScalar::Bool(b),
            Value::Number(n) => JsonScalar::Number(n.as_f64().unwrap_or_default().to_bits()),
            Value::String(s) => JsonScalar::Text(s),
            Value::Array(_) => JsonScalar::Composite,
            Value::Object(_) => JsonScalar::Composite,
        },
    }
}

/// Calls `serde_json::from_str` for a `serde_json::Map` and copies its
/// members out, one by one. A key that the text gives twice is in the map
/// once, with its last value. An error is handed out as its text. The
/// contract only names the outcome: the same text always reads the same way.
#[verifier::external_body]
pub(crate) fn parse_object(text: &str) -> (r: Result<Vec<JsonMember>, String>)
    ensures
        parse_view(r) == parsed_object(text@),
{
    let map = serde_json::from_str::<serde_json::Map<String, Value>>(text)
        .map_err(|e| e.to_string())?;
    Ok(map.into_iter().map(|(key, value)| member_from(key, value)).collect())
}

/// Calls `serde_json::from_str` for a `Vec` of values and copies its
/// elements out, one by one, each without a key. An error is handed out as
/// its text. The contract only names the outcome: the same text always reads
/// the same way.
#[verifier::external_body]
pub(crate) fn parse_array(text: &str) -> (r: Result<Vec<JsonMember>, String>)
    ensures
        parse_view(r) == parsed_array(text@),
{
    let elements = serde_json::from_str::<Vec<Value>>(text).map_err(|e| e.to_string())?;
    Ok(elements.into_iter().map(|value| member_from(String::new(), value)).collect())
}

/// Reads `text` as a JSON array: its elements, or the parser's complaint.
pub fn read_array(text: &str) -> (r: Result<Vec<JsonMember>, String>)
    ensures
        parse_view(r) == parsed_array(text@),
{
    parse_array(text)
}

/// Reads `text` as a JSON object: its members, or the parser's complaint.
pub fn read_object(text: &str) -> (r: Result<Vec<JsonMember>, String>)
    ensures
        parse_view(r) == parsed_object(text@),
{
    parse_object(text)
}

/// The first member called `key`, if there is one.
pub fn find_member<'a>(members: &'a Vec<JsonMember>, key: &str) -> (r: Option<&'a JsonMember>)
    ensures
        match r {
            Some(m) => member(members_view(members@), key@) == Some(m@),
            None => member(members_view(members@), key@) is None,
        },
{
    let ghost all = members_view(members@);
    let mut i: usize = 0;
    assert(all.subrange(0, all.len() as int) =~= all);
    while i < members.len()
        invariant
            i <= members.len(),
            all == members_view(members@),
            member(all, key@) == member(all.subrange(i as int, all.len() as int), key@),
        decreases members.len() - i,
    {
        let ghost rest = all.subrange(i as int, all.len() as int);
        assert(rest[0] == members@[i as int]@);
        assert(rest.drop_first() =~= all.subrange(i + 1, all.len() as int));
        if same_text(members[i].key.as_str(), key) {
            return Some(&members[i]);
        }
        i += 1;
    }
    None
}

/// A member that must be there and be a string.
pub fn get_required_text(members: &Vec<JsonMember>, key: &str) -> (r: Option<String>)
    ensures
        r.deep_view() == required_text(members_view(members@), key@),
{
    match find_member(members, key) {
        Some(m) => match &m.value {
            JsonScalar::Text(s) => Some(s.clone()),
            _ => None,
        },
        None => None,
    }
}

/// A member that must be there and be a number.
pub fn get_required_number(members: &Vec<JsonMember>, key: &str) -> (r: Option<u64>)
    ensures
        r == required_number(members_view(members@), key@),
{
    match find_member(members, key) {
        Some(m) => match &m.value {
            JsonScalar::Number(n) => Some(*n),
            _ => None,
        },
        None => None,
    }
}

/// A member that may be missing or `null`, and is a string otherwise.
pub fn get_optional_text(members: &Vec<JsonMember>, key: &str) -> (r: Option<Option<String>>)
    ensures
        r.deep_view() == optional_text(members_view(members@), key@),
{
    match find_member(members, key) {
        Some(m) => match &m.value {
            JsonScalar::Text(s) => Some(Some(s.clone())),
            JsonScalar::Null => Some(None),
            _ => None,
        },
        None => Some(None),
    }
}

/// A member that may be missing or `null`, and is a number otherwise.
pub fn get_optional_number(members: &Vec<JsonMember>, key: &str) -> (r: Option<Option<u64>>)
    ensures
        r == optional_number(members_view(members@), key@),
{
    match find_member(members, key) {
        Some(m) => match &m.value {
            JsonScalar::Number(n) => Some(Some(*n)),
            JsonScalar::Null => Some(None),
            _ => None,
        },
        None => Some(None),
    }
}

/// A member that may be missing or `null`, and is `true` or `false`
/// otherwise.
pub fn get_optional_bool(members: &Vec<JsonMember>, key: &str) -> (r: Option<Option<bool>>)
    ensures
        r == optional_bool(members_view(members@), key@),
{
    match find_member(members, key) {
        Some(m) => match &m.value {
            JsonScalar::Bool(b) => Some(Some(*b)),
            JsonScalar::Null => Some(None),
            _ => None,
        },
        None => Some(None),
    }
}

/// The element at index `at` as a string.
pub open spec fn text_at(elements: Seq<JsonMemberView>, at: int) -> Option<Seq<char>> {
    match elements[at].value {
        JsonScalarView::Text(s) => Some(s),
        _ => None,
    }
}

/// The element at index `at` as a number.
pub open spec fn number_at(elements: Seq<JsonMemberView>, at: int) -> Option<u64> {
    match elements[at].value {
        JsonScalarView::Number(n) => Some(n),
        _ => None,
    }
}

/// The element at index `at` as a string or `null`.
pub open spec fn optional_text_at(elements: Seq<JsonMemberView>, at: int) -> Option<
    Option<Seq<char>>,
> {
    match elements[at].value {
        JsonScalarView::Text(s) => Some(Some(s)),
        JsonScalarView::Null => Some(None),
        _ => None,
    }
}

/// The element at index `at` as a number or `null`.
pub open spec fn optional_number_at(elements: Seq<JsonMemberView>, at: int) -> Option<Option<u64>> {
    match elements[at].value {
        JsonScalarView::Number(n) => Some(Some(n)),
        JsonScalarView::Null => Some(None),
        _ => None,
    }
}

/// The element at index `at` as `true`, `false` or `null`.
pub open spec fn optional_bool_at(elements: Seq<JsonMemberView>, at: int) -> Option<Option<bool>> {
    match elements[at].value {
        JsonScalarView::Bool(b) => Some(Some(b)),
        JsonScalarView::Null => Some(None),
        _ => None,
    }
}

/// The element at index `at` as a string.
pub fn get_text_at(elements: &Vec<JsonMember>, at: usize) -> (r: Option<String>)
    requires
        at < elements.len(),
    ensures
        r.deep_view() == text_at(members_view(elements@), at as int),
{
    match &elements[at].value {
        JsonScalar::Text(s) => Some(s.clone()),
        _ => None,
    }
}

/// The element at index `at` as a number.
pub fn get_number_at(elements: &Vec<JsonMember>, at: usize) -> (r: Option<u64>)
    requires
        at < elements.len(),
    ensures
        r == number_at(members_view(elements@), at as int),
{
    match &elements[at].value {
        JsonScalar::Number(n) => Some(*n),
        _ => None,
    }
}

/// The element at index `at` as a string or `null`.
pub fn get_optional_text_at(elements: &Vec<JsonMember>, at: usize) -> (r: Option<Option<String>>)
    requires
        at < elements.len(),
    ensures
        r.deep_view() == optional_text_at(members_view(elements@), at as int),
{
    match &elements[at].value {
        JsonScalar::Text(s) => Some(Some(s.clone())),
        JsonScalar::Null => Some(None),
        _ => None,
    }
}

/// The element at index `at` as a number or `null`.
pub fn get_optional_number_at(elements: &Vec<JsonMember>, at: usize) -> (r: Option<Option<u64>>)
    requires
        at < elements.len(),
    ensures
        r == optional_number_at(members_view(elements@), at as int),
{
    match &elements[at].value {
        JsonScalar::Number(n) => Some(Some(*n)),
        JsonScalar::Null => Some(None),
        _ => None,
    }
}

/// The element at index `at` as `true`, `false` or `null`.
pub fn get_optional_bool_at(elements: &Vec<JsonMember>, at: usize) -> (r: Option<Option<bool>>)
    requires
        at < elements.len(),
    ensures
        r == optional_bool_at(members_view(elements@), at as int),
{
    match &elements[at].value {
        JsonScalar::Bool(b) => Some(Some(*b)),
        JsonScalar::Null => Some(None),
        _ => None,
    }
}

} // verus!
