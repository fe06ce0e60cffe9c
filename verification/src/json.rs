//! JSON values, as `serde_json` holds them.
//!
//! `json_of` names what a `serde_json::Value` holds, and `members_of` what a
//! `serde_json::Map` holds. The small functions below build and read such
//! values; their contracts speak of these two names only.

use vstd::prelude::*;

verus! {

/// What a JSON value holds. The members of an object have no order.
#[verifier::ext_equal]
pub enum JsonView {
    Null,
    Bool(bool),
    Integer(int),
    /// A number that is no integer, by the text it is written as.
    Fraction(Seq<char>),
    Text(Seq<char>),
    Array(Seq<JsonView>),
    Object(Map<Seq<char>, JsonView>),
}

#[verifier::external_type_specification]
#[verifier::external_body]
pub struct ExternalValue(serde_json::Value);

#[verifier::external_type_specification]
#[verifier::external_body]
#[verifier::reject_recursive_types(K)]
#[verifier::reject_recursive_types(V)]
pub struct ExternalMembers<K, V>(serde_json::Map<K, V>);

/// What a `serde_json::Value` holds.
pub uninterp spec fn json_of(value: serde_json::Value) -> JsonView;

/// What a `serde_json::Map` holds: the value of each member, by its name.
pub uninterp spec fn members_of(members: serde_json::Map<String, serde_json::Value>) -> Map<
    Seq<char>,
    JsonView,
>;

/// What each value of a list holds.
pub open spec fn jsons(values: Seq<serde_json::Value>) -> Seq<JsonView> {
    values.map_values(|value: serde_json::Value| json_of(value))
}

/// The member of an object by that name, if `value` is an object that has it.
pub open spec fn member_of(value: JsonView, name: Seq<char>) -> Option<JsonView> {
    match value {
        JsonView::Object(members) => if members.contains_key(name) {
            Some(members[name])
        } else {
            None
        },
        _ => None,
    }
}

pub open spec fn text_of(value: JsonView) -> Option<Seq<char>> {
    match value {
        JsonView::Text(text) => Some(text),
        _ => None,
    }
}

/// The text of the member by that name, if there is such a member and it is a text.
pub open spec fn text_member_of(value: JsonView, name: Seq<char>) -> Option<Seq<char>> {
    match member_of(value, name) {
        Some(member) => text_of(member),
        None => None,
    }
}

/// The text of the member by that name, or no text.
pub open spec fn text_member_or_empty(value: JsonView, name: Seq<char>) -> Seq<char> {
    match text_member_of(value, name) {
        Some(text) => text,
        None => seq![],
    }
}

/// The items of the member by that name, or none.
pub open spec fn items_member(value: JsonView, name: Seq<char>) -> Seq<JsonView> {
    match member_of(value, name) {
        Some(JsonView::Array(items)) => items,
        _ => seq![],
    }
}

/// A text, or null where there is none.
pub open spec fn text_or_null(text: Option<Seq<char>>) -> JsonView {
    match text {
        Some(text) => JsonView::Text(text),
        None => JsonView::Null,
    }
}

/// The characters of an optional text.
pub open spec fn optional_chars(text: Option<String>) -> Option<Seq<char>> {
    match text {
        Some(text) => Some(text@),
        None => None,
    }
}

/// The member name that `serde_json` keeps for itself. It takes an object whose
/// first member has this name for a text to be read as JSON.
pub open spec fn reserved_name() -> Seq<char> {
    "$serde_json::private::RawValue"@
}

/// No object in a value has the reserved name, as far down as `depth`.
pub open spec fn unreserved_within(value: JsonView, depth: nat) -> bool
    decreases depth,
{
    match value {
        JsonView::Array(items) => forall|i: int|
            0 <= i < items.len() && depth > 0 ==> unreserved_within(
                #[trigger] items[i],
                (depth - 1) as nat,
            ),
        JsonView::Object(members) => {
            &&& !members.contains_key(reserved_name())
            &&& depth > 0 ==> forall|name: Seq<char>| #[trigger]
                members.contains_key(name) ==> unreserved_within(members[name], (depth - 1) as nat)
        },
        _ => true,
    }
}

/// No object in a value has the reserved name.
pub open spec fn unreserved(value: JsonView) -> bool {
    forall|depth: nat| #[trigger] unreserved_within(value, depth)
}

/// A value whose text can be read again as it is: its arrays and objects are nested
/// no deeper than `depth`, none of its objects has the reserved name, and each of
/// its fractions is read as it was written.
pub open spec fn readable_within(value: JsonView, depth: nat) -> bool
    decreases depth,
{
    match value {
        JsonView::Fraction(text) => parsed_json(text) is Ok && parsed_json(text)->Ok_0 == value,
        JsonView::Array(items) => {
            &&& depth > 0
            &&& forall|i: int|
                0 <= i < items.len() ==> readable_within(#[trigger] items[i], (depth - 1) as nat)
        },
        JsonView::Object(members) => {
            &&& depth > 0
            &&& !members.contains_key(reserved_name())
            &&& forall|name: Seq<char>| #[trigger]
                members.contains_key(name) ==> readable_within(members[name], (depth - 1) as nat)
        },
        _ => true,
    }
}

proof fn lemma_item_unreserved(items: Seq<JsonView>, i: int, depth: nat)
    requires
        0 <= i < items.len(),
        unreserved(JsonView::Array(items)),
    ensures
        unreserved_within(items[i], depth),
{
    let value = JsonView::Array(items);
    let deeper: nat = depth + 1;
    assert(unreserved_within(value, deeper));
    assert((deeper - 1) as nat == depth);
    assert(value->Array_0[i] == items[i]);
}

/// An array is free of the reserved name exactly where its items are.
pub proof fn lemma_unreserved_array(items: Seq<JsonView>)
    ensures
        unreserved(JsonView::Array(items)) == (forall|i: int|
            0 <= i < items.len() ==> unreserved(#[trigger] items[i])),
{
    let value = JsonView::Array(items);
    if unreserved(value) {
        assert forall|i: int| 0 <= i < items.len() implies unreserved(#[trigger] items[i]) by {
            assert forall|depth: nat| #[trigger] unreserved_within(items[i], depth) by {
                lemma_item_unreserved(items, i, depth);
            }
        }
    }
    if forall|i: int| 0 <= i < items.len() ==> unreserved(#[trigger] items[i]) {
        assert forall|depth: nat| #[trigger] unreserved_within(value, depth) by {
            if depth > 0 {
                assert forall|i: int| 0 <= i < items.len() implies unreserved_within(
                    #[trigger] items[i],
                    (depth - 1) as nat,
                ) by {
                    assert(unreserved(items[i]));
                }
            }
        }
    }
}

/// An object is free of the reserved name exactly where it does not have it and its
/// members are free of it.
pub proof fn lemma_unreserved_object(members: Map<Seq<char>, JsonView>)
    ensures
        unreserved(JsonView::Object(members)) == (!members.contains_key(reserved_name()) && (forall|
            name: Seq<char>,
        | #[trigger]
            members.contains_key(name) ==> unreserved(members[name]))),
{
    let value = JsonView::Object(members);
    if unreserved(value) {
        assert(unreserved_within(value, 0));
        assert forall|name: Seq<char>| #[trigger] members.contains_key(name) implies unreserved(
            members[name],
        ) by {
            assert forall|depth: nat| #[trigger] unreserved_within(members[name], depth) by {
                assert(unreserved_within(value, depth + 1));
                assert((depth + 1 - 1) as nat == depth);
            }
        }
    }
    if !members.contains_key(reserved_name()) && (forall|name: Seq<char>| #[trigger]
        members.contains_key(name) ==> unreserved(members[name])) {
        assert forall|depth: nat| #[trigger] unreserved_within(value, depth) by {
            if depth > 0 {
                assert forall|name: Seq<char>| #[trigger]
                    members.contains_key(name) implies unreserved_within(
                    members[name],
                    (depth - 1) as nat,
                ) by {
                    assert(unreserved(members[name]));
                }
            }
        }
    }
}

/// An object can be read again exactly where it does not have the reserved name and
/// its members can be read again, one level further down.
pub proof fn lemma_readable_object(members: Map<Seq<char>, JsonView>, depth: nat)
    ensures
        readable_within(JsonView::Object(members), depth + 1) == (!members.contains_key(
            reserved_name(),
        ) && (forall|name: Seq<char>| #[trigger]
            members.contains_key(name) ==> readable_within(members[name], depth))),
{
    let deeper: nat = depth + 1;
    assert((deeper - 1) as nat == depth);
}

/// An array can be read again exactly where its items can, one level further down.
pub proof fn lemma_readable_array(items: Seq<JsonView>, depth: nat)
    ensures
        readable_within(JsonView::Array(items), depth + 1) == (forall|i: int|
            0 <= i < items.len() ==> readable_within(#[trigger] items[i], depth)),
{
    let value = JsonView::Array(items);
    let deeper: nat = depth + 1;
    assert((deeper - 1) as nat == depth);
    assert(value->Array_0 == items);
}

/// What can be read again is free of the reserved name.
pub proof fn lemma_readable_is_unreserved(value: JsonView, depth: nat)
    requires
        readable_within(value, depth),
    ensures
        unreserved(value),
    decreases depth,
{
    match value {
        JsonView::Array(items) => {
            assert forall|i: int| 0 <= i < items.len() implies unreserved(#[trigger] items[i]) by {
                lemma_readable_is_unreserved(items[i], (depth - 1) as nat);
            }
            lemma_unreserved_array(items);
        },
        JsonView::Object(members) => {
            assert forall|name: Seq<char>| #[trigger] members.contains_key(name) implies unreserved(
                members[name],
            ) by {
                lemma_readable_is_unreserved(members[name], (depth - 1) as nat);
            }
            lemma_unreserved_object(members);
        },
        _ => {},
    }
}

/// An object's members where it has none.
pub open spec fn empty_members() -> Map<Seq<char>, JsonView> {
    Map::empty()
}

/// `serde_json::Map::new` makes a map without members.
#[verifier::external_body]
pub(crate) fn no_members() -> (members: serde_json::Map<String, serde_json::Value>)
    ensures
        members_of(members) == empty_members(),
{
    serde_json::Map::new()
}

/// `serde_json::Map::insert` gives the member by that name the value, whether
/// or not there was such a member, and leaves the other members alone.
#[verifier::external_body]
pub(crate) fn set_member(
    members: &mut serde_json::Map<String, serde_json::Value>,
    name: &str,
    value: serde_json::Value,
)
    ensures
        members_of(*final(members)) == members_of(*old(members)).insert(name@, json_of(value)),
{
    members.insert(name.to_string(), value);
}

/// `serde_json::Value::Object` holds the members it is given.
#[verifier::external_body]
pub(crate) fn object(members: serde_json::Map<String, serde_json::Value>) -> (value:
    serde_json::Value)
    ensures
        json_of(value) == JsonView::Object(members_of(members)),
{
    serde_json::Value::Object(members)
}

/// `serde_json::Value::Array` holds the values it is given, in order.
#[verifier::external_body]
pub(crate) fn array(items: Vec<serde_json::Value>) -> (value: serde_json::Value)
    ensures
        json_of(value) == JsonView::Array(jsons(items@)),
{
    serde_json::Value::Array(items)
}

/// `serde_json::Value::String` holds the text it is given.
#[verifier::external_body]
pub(crate) fn text_value(text: &str) -> (value: serde_json::Value)
    ensures
        json_of(value) == JsonView::Text(text@),
{
    serde_json::Value::String(text.to_string())
}

/// `serde_json::Value::Bool` holds the truth value it is given.
#[verifier::external_body]
pub(crate) fn bool_value(flag: bool) -> (value: serde_json::Value)
    ensures
        json_of(value) == JsonView::Bool(flag),
{
    serde_json::Value::Bool(flag)
}

/// `serde_json::Value::from` of a `u64` holds that integer.
#[verifier::external_body]
pub(crate) fn integer_value(number: u64) -> (value: serde_json::Value)
    ensures
        json_of(value) == JsonView::Integer(number as int),
{
    serde_json::Value::from(number)
}

/// `serde_json::Value::Null` holds nothing.
#[verifier::external_body]
pub(crate) fn null_value() -> (value: serde_json::Value)
    ensures
        json_of(value) == JsonView::Null,
{
    serde_json::Value::Null
}

/// `serde_json::Map::get` finds the member by that name.
#[verifier::external_body]
pub(crate) fn get_member<'a>(
    members: &'a serde_json::Map<String, serde_json::Value>,
    name: &str,
) -> (value: Option<&'a serde_json::Value>)
    ensures
        match value {
            Some(value) => members_of(*members).contains_key(name@) && json_of(*value)
                == members_of(*members)[name@],
            None => !members_of(*members).contains_key(name@),
        },
{
    members.get(name)
}

/// `serde_json::Value::get` with a text finds the member by that name of an
/// object, and nothing in any other value.
#[verifier::external_body]
pub(crate) fn get<'a>(value: &'a serde_json::Value, name: &str) -> (member: Option<
    &'a serde_json::Value,
>)
    ensures
        match member {
            Some(member) => member_of(json_of(*value), name@) == Some(json_of(*member)),
            None => member_of(json_of(*value), name@) is None,
        },
{
    value.get(name)
}

/// `serde_json::Value::as_str` gives the text of a text value only.
#[verifier::external_body]
pub(crate) fn as_text(value: &serde_json::Value) -> (text: Option<&str>)
    ensures
        match text {
            Some(text) => text_of(json_of(*value)) == Some(text@),
            None => text_of(json_of(*value)) is None,
        },
{
    value.as_str()
}

/// `serde_json::Value::as_array` gives the items of an array only.
#[verifier::external_body]
pub(crate) fn as_items(value: &serde_json::Value) -> (items: Option<&Vec<serde_json::Value>>)
    ensures
        match items {
            Some(items) => json_of(*value) == JsonView::Array(jsons(items@)),
            None => !(json_of(*value) is Array),
        },
{
    value.as_array()
}

/// `serde_json::Value::as_object` gives the members of an object only.
#[verifier::external_body]
pub(crate) fn as_members(value: &serde_json::Value) -> (members: Option<
    &serde_json::Map<String, serde_json::Value>,
>)
    ensures
        match members {
            Some(members) => json_of(*value) == JsonView::Object(members_of(*members)),
            None => !(json_of(*value) is Object),
        },
{
    value.as_object()
}

/// The `Clone` of `serde_json::Value` holds what the value holds.
pub assume_specification[ <serde_json::Value as Clone>::clone ](
    value: &serde_json::Value,
) -> (copy: serde_json::Value)
    ensures
        json_of(copy) == json_of(*value),
;

/// The `Clone` of `serde_json::Map` holds what the map holds.
pub assume_specification[ <serde_json::Map<String, serde_json::Value> as Clone>::clone ](
    members: &serde_json::Map<String, serde_json::Value>,
) -> (copy: serde_json::Map<String, serde_json::Value>)
    ensures
        members_of(copy) == members_of(*members),
;

/// What `serde_json::from_str` reads out of a text: a JSON value, or the
/// error's text.
pub uninterp spec fn parsed_json(text: Seq<char>) -> Result<JsonView, Seq<char>>;

/// `serde_json::from_str` into a `serde_json::Value`; an error is given as its text.
#[verifier::external_body]
pub(crate) fn parse(text: &str) -> (value: Result<serde_json::Value, String>)
    ensures
        match value {
            Ok(value) => parsed_json(text@) is Ok && parsed_json(text@)->Ok_0 == json_of(value),
            Err(error) => parsed_json(text@) is Err && parsed_json(text@)->Err_0 == error@,
        },
{
    serde_json::from_str(text).map_err(|error| error.to_string())
}

/// A map with one member more.
pub(crate) fn with(
    members: serde_json::Map<String, serde_json::Value>,
    name: &str,
    value: serde_json::Value,
) -> (more: serde_json::Map<String, serde_json::Value>)
    ensures
        members_of(more) == members_of(members).insert(name@, json_of(value)),
{
    let mut more = members;
    set_member(&mut more, name, value);
    more
}

pub(crate) fn optional_text_value(text: Option<&str>) -> (value: serde_json::Value)
    ensures
        json_of(value) == text_or_null(
            match text {
                Some(text) => Some(text@),
                None => None,
            },
        ),
{
    match text {
        Some(text) => text_value(text),
        None => null_value(),
    }
}

/// The text of the member by that name, or no text.
pub(crate) fn member_text(value: &serde_json::Value, name: &str) -> (text: String)
    ensures
        text@ == text_member_or_empty(json_of(*value), name@),
{
    match get(value, name) {
        Some(member) => match as_text(member) {
            Some(text) => text.to_string(),
            None => String::new(),
        },
        None => String::new(),
    }
}

/// An array of texts.
pub open spec fn text_items(items: Seq<Seq<char>>) -> Seq<JsonView> {
    items.map_values(|text: Seq<char>| JsonView::Text(text))
}

/// The array of some texts.
pub(crate) fn text_array(items: &Vec<String>) -> (value: serde_json::Value)
    ensures
        json_of(value) == JsonView::Array(text_items(crate::text::texts(items@))),
{
    let mut values: Vec<serde_json::Value> = Vec::new();
    let mut i: usize = 0;
    while i < items.len()
        invariant
            i <= items@.len(),
            values@.len() == i,
            forall|j: int| 0 <= j < i ==> json_of(#[trigger] values@[j]) == JsonView::Text(
                items@[j]@,
            ),
        decreases items@.len() - i,
    {
        values.push(text_value(items[i].as_str()));
        i += 1;
    }
    assert(jsons(values@) =~= text_items(crate::text::texts(items@)));
    array(values)
}

} // verus!
