//! JSON documents: those that others wrote, and those that are sent.

use crate::number::decimal;
use crate::text::texts;
use vstd::prelude::*;

verus! {

/// A JSON value, held by `serde_json`.
#[verifier::external_type_specification]
#[verifier::external_body]
pub struct ExValue(serde_json::Value);

/// What a JSON value says. A number is known by its digits.
pub enum JsonView {
    Null,
    Bool(bool),
    Number(Seq<char>),
    Str(Seq<char>),
    Arr(Seq<JsonView>),
    Obj(Map<Seq<char>, JsonView>),
}

/// The contents of a value.
pub uninterp spec fn json_view(value: serde_json::Value) -> JsonView;

/// The document that `serde_json::from_str` reads from a text, if it can.
pub uninterp spec fn json_document(text: Seq<char>) -> Option<JsonView>;

/// The compact text that a value is displayed as.
pub uninterp spec fn json_text(value: JsonView) -> Seq<char>;

/// `serde_json::from_str`: whether it reads a document, and which, is a function
/// of the text.
#[verifier::external_body]
pub(crate) fn parse_json(text: &str) -> (r: Option<serde_json::Value>)
    ensures
        match r {
            Some(value) => json_document(text@) == Some(json_view(value)),
            None => json_document(text@) is None,
        },
{
    serde_json::from_str::<serde_json::Value>(text).ok()
}

/// `serde_json::Value::get` with a key: the member of an object, nothing of
/// other values.
#[verifier::external_body]
pub(crate) fn json_get<'a>(value: &'a serde_json::Value, key: &str) -> (r: Option<
    &'a serde_json::Value,
>)
    ensures
        match r {
            Some(member) => json_member(json_view(*value), key@) == Some(json_view(*member)),
            None => json_member(json_view(*value), key@) is None,
        },
{
    value.get(key)
}

/// `serde_json::Value::as_str`: the text of a string, nothing of other values.
#[verifier::external_body]
pub(crate) fn json_as_str(value: &serde_json::Value) -> (r: Option<&str>)
    ensures
        match r {
            Some(s) => json_view(*value) == JsonView::Str(s@),
            None => !(json_view(*value) is Str),
        },
{
    value.as_str()
}

/// `serde_json::Value::as_bool`: the truth value, nothing of other values.
#[verifier::external_body]
pub(crate) fn json_as_bool(value: &serde_json::Value) -> (r: Option<bool>)
    ensures
        match r {
            Some(b) => json_view(*value) == JsonView::Bool(b),
            None => !(json_view(*value) is Bool),
        },
{
    value.as_bool()
}

/// `serde_json::Value::as_array`: the items of an array, nothing of other
/// values.
#[verifier::external_body]
pub(crate) fn json_as_array(value: &serde_json::Value) -> (r: Option<&Vec<serde_json::Value>>)
    ensures
        match r {
            Some(items) => json_view(*value) == JsonView::Arr(json_views(items@)),
            None => !(json_view(*value) is Arr),
        },
{
    value.as_array()
}

/// `serde_json::Value::to_string`: the compact text, a function of the value.
#[verifier::external_body]
pub(crate) fn json_to_text(value: &serde_json::Value) -> (r: String)
    ensures
        r@ == json_text(json_view(*value)),
{
    value.to_string()
}

/// `serde_json::Value::Object` with `serde_json::Map::new`: an object without
/// members.
#[verifier::external_body]
pub(crate) fn json_object() -> (r: serde_json::Value)
    ensures
        json_view(r) == JsonView::Obj(Map::empty()),
{
    serde_json::Value::Object(serde_json::Map::new())
}

/// `serde_json::Value`'s `index_mut` with a key, and an assignment to what it
/// gives: the object has the member with the key then, and its other members as
/// before.
#[verifier::external_body]
pub(crate) fn json_set(object: &mut serde_json::Value, key: &str, value: serde_json::Value)
    requires
        json_view(*old(object)) is Obj,
    ensures
        json_view(*final(object)) == JsonView::Obj(
            json_view(*old(object))->Obj_0.insert(key@, json_view(value)),
        ),
{
    object[key] = value;
}

/// `serde_json::Value::from` of a text: a string.
#[verifier::external_body]
pub(crate) fn json_string(text: &str) -> (r: serde_json::Value)
    ensures
        json_view(r) == JsonView::Str(text@),
{
    serde_json::Value::from(text)
}

/// `serde_json::Value::from` of a number: a number with its decimal digits.
#[verifier::external_body]
pub(crate) fn json_number(n: u32) -> (r: serde_json::Value)
    ensures
        json_view(r) == JsonView::Number(decimal(n as nat)),
{
    serde_json::Value::from(n)
}

/// `serde_json::Value::from` of a truth value.
#[verifier::external_body]
pub(crate) fn json_bool(b: bool) -> (r: serde_json::Value)
    ensures
        json_view(r) == JsonView::Bool(b),
{
    serde_json::Value::from(b)
}

/// `serde_json::Value::from` of a list of values: an array of them.
#[verifier::external_body]
pub(crate) fn json_array(items: Vec<serde_json::Value>) -> (r: serde_json::Value)
    ensures
        json_view(r) == JsonView::Arr(json_views(items@)),
{
    serde_json::Value::from(items)
}

// ---------------------------------------------------------------------------
// Members
// ---------------------------------------------------------------------------

/// The contents of a list of values.
pub open spec fn json_views(values: Seq<serde_json::Value>) -> Seq<JsonView> {
    Seq::new(values.len(), |i: int| json_view(values[i]))
}

/// The member of an object with a key.
pub open spec fn json_member(value: JsonView, key: Seq<char>) -> Option<JsonView> {
    match value {
        JsonView::Obj(members) => if members.dom().contains(key) {
            Some(members[key])
        } else {
            None
        },
        _ => None,
    }
}

/// The text of a string member.
pub open spec fn str_member(value: JsonView, key: Seq<char>) -> Option<Seq<char>> {
    match json_member(value, key) {
        Some(JsonView::Str(s)) => Some(s),
        _ => None,
    }
}

/// The items of an array member.
pub open spec fn arr_member(value: JsonView, key: Seq<char>) -> Option<Seq<JsonView>> {
    match json_member(value, key) {
        Some(JsonView::Arr(items)) => Some(items),
        _ => None,
    }
}

/// Whether a member is the truth value `true`.
pub open spec fn true_member(value: JsonView, key: Seq<char>) -> bool {
    json_member(value, key) == Some(JsonView::Bool(true))
}

/// The least index from `from` on of an item with a string member that says
/// `wanted`.
pub open spec fn find_item(
    items: Seq<JsonView>,
    key: Seq<char>,
    wanted: Seq<char>,
    from: int,
) -> Option<int>
    decreases items.len() - from,
{
    if from < 0 || from >= items.len() {
        None
    } else if str_member(items[from], key) == Some(wanted) {
        Some(from)
    } else {
        find_item(items, key, wanted, from + 1)
    }
}

/// The texts of those items that are strings, in their order.
pub open spec fn string_items(items: Seq<JsonView>) -> Seq<Seq<char>>
    decreases items.len(),
{
    if items.len() == 0 {
        Seq::empty()
    } else {
        let before = string_items(items.drop_last());
        match items.last() {
            JsonView::Str(s) => before.push(s),
            _ => before,
        }
    }
}

/// The text of a string member.
pub(crate) fn get_str<'a>(value: &'a serde_json::Value, key: &str) -> (r: Option<&'a str>)
    ensures
        match r {
            Some(s) => str_member(json_view(*value), key@) == Some(s@),
            None => str_member(json_view(*value), key@) is None,
        },
{
    match json_get(value, key) {
        Some(member) => json_as_str(member),
        None => None,
    }
}

/// The items of an array member.
pub(crate) fn get_array<'a>(value: &'a serde_json::Value, key: &str) -> (r: Option<
    &'a Vec<serde_json::Value>,
>)
    ensures
        match r {
            Some(items) => arr_member(json_view(*value), key@) == Some(json_views(items@)),
            None => arr_member(json_view(*value), key@) is None,
        },
{
    match json_get(value, key) {
        Some(member) => json_as_array(member),
        None => None,
    }
}

/// Whether a member is the truth value `true`.
pub(crate) fn get_true(value: &serde_json::Value, key: &str) -> (r: bool)
    ensures
        r == true_member(json_view(*value), key@),
{
    match json_get(value, key) {
        Some(member) => match json_as_bool(member) {
            Some(b) => b,
            None => false,
        },
        None => false,
    }
}

/// The least index of an item with a string member that says `wanted`.
pub(crate) fn find_in_items(items: &Vec<serde_json::Value>, key: &str, wanted: &str) -> (r: Option<
    usize,
>)
    ensures
        match r {
            Some(i) => i < items@.len() && find_item(json_views(items@), key@, wanted@, 0) == Some(
                i as int,
            ),
            None => find_item(json_views(items@), key@, wanted@, 0) is None,
        },
{
    let mut i: usize = 0;
    while i < items.len()
        invariant
            i <= items@.len(),
            find_item(json_views(items@), key@, wanted@, 0) == find_item(
                json_views(items@),
                key@,
                wanted@,
                i as int,
            ),
        decreases items@.len() - i,
    {
        if let Some(s) = get_str(&items[i], key) {
            if crate::text::same_text(s, wanted) {
                return Some(i);
            }
        }
        i = i + 1;
    }
    None
}

/// The texts of those items that are strings.
pub(crate) fn strings_of(items: &Vec<serde_json::Value>) -> (r: Vec<String>)
    ensures
        texts(r@) == string_items(json_views(items@)),
{
    let mut r: Vec<String> = Vec::new();
    let ghost all = json_views(items@);
    let mut i: usize = 0;
    assert(texts(r@) =~= string_items(all.take(0)));
    while i < items.len()
        invariant
            all == json_views(items@),
            i <= items@.len(),
            texts(r@) == string_items(all.take(i as int)),
        decreases items@.len() - i,
    {
        assert(all.take(i + 1).drop_last() =~= all.take(i as int));
        assert(all.take(i + 1).last() == json_view(items@[i as int]));
        if let Some(s) = json_as_str(&items[i]) {
            let text = crate::text::copy_text(s);
            proof {
                crate::text::lemma_texts_push(r@, text);
            }
            r.push(text);
        }
        i = i + 1;
    }
    assert(all.take(items@.len() as int) =~= all);
    r
}

// ---------------------------------------------------------------------------
// Laws
// ---------------------------------------------------------------------------

/// Whether a value is an object that has another value under a key.
pub open spec fn has_under(value: JsonView, key: Seq<char>, member: JsonView) -> bool {
    value matches JsonView::Obj(members) && members.dom().contains(key) && members[key] == member
}

/// Whether a value is an object that has a text under a key.
pub open spec fn says(value: JsonView, key: Seq<char>, text: Seq<char>) -> bool {
    has_under(value, key, JsonView::Str(text))
}

/// A member is read if and only if it is there and is of the kind that is asked for.
pub proof fn law_members_are_read(
    value: JsonView,
    key: Seq<char>,
    text: Seq<char>,
    items: Seq<JsonView>,
)
    ensures
        str_member(value, key) == Some(text) <==> says(value, key, text),
        arr_member(value, key) == Some(items) <==> has_under(value, key, JsonView::Arr(items)),
        true_member(value, key) <==> has_under(value, key, JsonView::Bool(true)),
        (forall|s: Seq<char>| !says(value, key, s)) <==> str_member(value, key) is None,
        (forall|s: Seq<JsonView>| !has_under(value, key, JsonView::Arr(s))) <==> arr_member(
            value,
            key,
        ) is None,
{
    if let Some(s) = str_member(value, key) {
        assert(says(value, key, s));
    }
    if let Some(s) = arr_member(value, key) {
        assert(has_under(value, key, JsonView::Arr(s)));
    }
}

/// The item that is found is the first that has the text under the key; none is found
/// only where none has it.
pub proof fn law_the_first_item_is_found(
    items: Seq<JsonView>,
    key: Seq<char>,
    wanted: Seq<char>,
    from: int,
)
    requires
        0 <= from <= items.len(),
    ensures
        match find_item(items, key, wanted, from) {
            Some(i) => from <= i < items.len() && says(items[i], key, wanted) && forall|j: int|
                from <= j < i ==> !says(#[trigger] items[j], key, wanted),
            None => forall|j: int|
                from <= j < items.len() ==> !says(#[trigger] items[j], key, wanted),
        },
    decreases items.len() - from,
{
    if from < items.len() {
        law_members_are_read(items[from], key, wanted, Seq::empty());
        if !says(items[from], key, wanted) {
            law_the_first_item_is_found(items, key, wanted, from + 1);
        }
    }
}

/// The texts among items are those of the first ones and behind them those of the
/// others. Of one item, its text is taken if it is a string, and nothing else.
pub proof fn law_texts_are_taken_in_order(a: Seq<JsonView>, b: Seq<JsonView>, item: JsonView)
    ensures
        string_items(a + b) == string_items(a) + string_items(b),
        item matches JsonView::Str(s) ==> string_items(seq![item]) == seq![s],
        !(item is Str) ==> string_items(seq![item]).len() == 0,
    decreases b.len(),
{
    reveal_with_fuel(string_items, 2);
    assert(seq![item].drop_last() =~= Seq::<JsonView>::empty());
    if b.len() == 0 {
        assert(a + b =~= a);
        assert(string_items(a) + string_items(b) =~= string_items(a));
    } else {
        law_texts_are_taken_in_order(a, b.drop_last(), item);
        assert((a + b).drop_last() =~= a + b.drop_last());
        assert((a + b).last() == b.last());
        assert(string_items(a + b) =~= string_items(a) + string_items(b));
    }
    if let JsonView::Str(s) = item {
        assert(string_items(seq![item]) =~= seq![s]);
    }
}

} // verus!
