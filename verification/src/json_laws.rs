//! What holds of JSON values, whatever they hold.
use vstd::prelude::*;
use crate::json::{items_view, lemma_items_view, members_view, Json, JsonView};

verus! {

/// `value` is an object whose members all have one of the names `keys`.
pub open spec fn has_only(value: JsonView, keys: Set<Seq<char>>) -> bool {
    &&& value is Object
    &&& forall|key: Seq<char>| #[trigger] value.get(key) is Some ==> keys.contains(key)
}

/// A member is found under its key, and nothing is found where there is no member; only objects
/// have members.
pub proof fn law_members_are_found(value: JsonView, key: Seq<char>)
    ensures
        value matches JsonView::Object(members) ==> {
            &&& members.contains_key(key) ==> value.get(key) == Some(members[key])
            &&& !members.contains_key(key) ==> value.get(key) is None
        },
        !(value is Object) ==> value.get(key) is None,
        JsonView::empty_object() == JsonView::Object(Map::empty()),
{
}

/// A value is taken for a text, a number or an array where it is that one and no other.
pub proof fn law_values_are_what_they_are(
    value: JsonView,
    key: Seq<char>,
    text: Seq<char>,
    number: u64,
    items: Seq<JsonView>,
)
    ensures
        value.as_text() == Some(text) <==> value == JsonView::Text(text),
        value.as_u64() == Some(number) <==> value == JsonView::Integer(number as int),
        value.as_array() == Some(items) <==> value == JsonView::Array(items),
        value.get_text(key) == Some(text) <==> value.get(key) == Some(JsonView::Text(text)),
{
}

/// What is put under a key is found there, and the other members stay; what is no object counts
/// as one without members.
pub proof fn law_members_are_put(
    value: JsonView,
    key: Seq<char>,
    member: JsonView,
    other: Seq<char>,
)
    ensures
        value.with(key, member) is Object,
        value.with(key, member).get(key) == Some(member),
        other != key ==> value.with(key, member).get(other) == value.get(other),
{
}

/// Objects with the same members are the same.
pub proof fn law_objects_are_their_members(a: JsonView, b: JsonView)
    requires
        a is Object,
        b is Object,
        forall|key: Seq<char>| #[trigger] a.get(key) == b.get(key),
    ensures
        a == b,
{
    let x = a->Object_0;
    let y = b->Object_0;
    assert forall|key: Seq<char>| x.contains_key(key) == y.contains_key(key) by {
        assert(a.get(key) == b.get(key));
    }
    assert forall|key: Seq<char>| x.contains_key(key) implies x[key] == y[key] by {
        assert(a.get(key) == b.get(key));
    }
    assert(x =~= y);
}

/// A value stands for what it holds.
pub proof fn law_plain_values(b: bool, unsigned: u64, signed: i64, text: String)
    ensures
        Json::Null@ == JsonView::Null,
        Json::Bool(b)@ == JsonView::Bool(b),
        Json::Unsigned(unsigned)@ == JsonView::Integer(unsigned as int),
        Json::Signed(signed)@ == JsonView::Integer(signed as int),
        Json::Text(text)@ == JsonView::Text(text@),
{
}

/// An array stands for what its items stand for, one by one.
pub proof fn law_items_stand_in_order(items: Vec<Json>)
    ensures
        Json::Array(items)@ matches JsonView::Array(views) && views.len() == items@.len() && forall|
            i: int,
        |
            0 <= i < items@.len() ==> #[trigger] views[i] == items@[i]@,
{
    lemma_items_view(items@);
}

/// In an object the last member with a key is the one that counts, and there is no member but
/// those that are listed.
pub proof fn law_last_member_counts(members: Vec<(String, Json)>, key: Seq<char>, i: int)
    ensures
        Json::Object(members)@ is Object,
        0 <= i < members@.len() && members@[i].0@ == key && (forall|j: int|
            i < j < members@.len() ==> (#[trigger] members@[j]).0@ != key) ==> Json::Object(
            members,
        )@.get(key) == Some(members@[i].1@),
        (forall|j: int| 0 <= j < members@.len() ==> (#[trigger] members@[j]).0@ != key)
            ==> Json::Object(members)@.get(key) is None,
{
    lemma_last_member(members@, key, i);
}

proof fn lemma_last_member(members: Seq<(String, Json)>, key: Seq<char>, i: int)
    ensures
        0 <= i < members.len() && members[i].0@ == key && (forall|j: int|
            i < j < members.len() ==> (#[trigger] members[j]).0@ != key) ==> members_view(
            members,
        ).contains_key(key) && members_view(members)[key] == members[i].1@,
        (forall|j: int| 0 <= j < members.len() ==> (#[trigger] members[j]).0@ != key)
            ==> !members_view(members).contains_key(key),
    decreases members.len(),
{
    if members.len() > 0 {
        let init = members.drop_last();
        let last = members.len() - 1;
        lemma_last_member(init, key, i);
        assert forall|j: int| 0 <= j < init.len() implies init[j] == members[j] by {}
        if members[last].0@ != key {
            if forall|j: int| 0 <= j < members.len() ==> (#[trigger] members[j]).0@ != key {
                assert forall|j: int| 0 <= j < init.len() implies (#[trigger] init[j]).0@ != key by {
                    assert(init[j] == members[j]);
                }
            }
            if 0 <= i < members.len() && members[i].0@ == key && (forall|j: int|
                i < j < members.len() ==> (#[trigger] members[j]).0@ != key) {
                assert(i < last);
                assert forall|j: int| i < j < init.len() implies (#[trigger] init[j]).0@ != key by {
                    assert(init[j] == members[j]);
                }
                assert(init[i] == members[i]);
            }
        }
    }
}

/// What is put into an object is read from it again, and what else is read from it is what it
/// held before.
pub proof fn law_object_gives_back(
    object: Json,
    key: &str,
    value: Json,
    grown: Json,
    wanted: &str,
    found: Option<&Json>,
)
    requires
        call_ensures(Json::with, (object, key, value), grown),
        call_ensures(Json::get, (&grown, wanted), found),
    ensures
        wanted@ == key@ ==> (found matches Some(v) && v@ == value@),
        wanted@ != key@ ==> match found {
            Some(v) => object@.get(wanted@) == Some(v@),
            None => object@.get(wanted@) is None,
        },
{
}

/// A value is read as what it holds, and as nothing else.
pub proof fn law_values_are_read(
    value: &Json,
    text: Option<&str>,
    number: Option<u64>,
    array: Option<&Vec<Json>>,
    copy: Json,
)
    requires
        call_ensures(Json::as_str, (value,), text),
        call_ensures(Json::as_u64, (value,), number),
        call_ensures(Json::as_array, (value,), array),
        call_ensures(Json::clone, (value,), copy),
    ensures
        match value {
            Json::Text(s) => text matches Some(t) && t@ == s@,
            _ => text is None,
        },
        match value {
            Json::Unsigned(n) => number == Some(*n),
            Json::Signed(n) => if *n >= 0 {
                number matches Some(m) && m == *n
            } else {
                number is None
            },
            _ => number is None,
        },
        match value {
            Json::Array(items) => array matches Some(list) && list@.len() == items@.len() && forall|
                i: int,
            |
                0 <= i < items@.len() ==> (#[trigger] list@[i])@ == items@[i]@,
            _ => array is None,
        },
        copy@ == value@,
{
    if let (Json::Array(items), Some(list)) = (value, array) {
        lemma_items_view(items@);
        lemma_items_view(list@);
        assert forall|i: int| 0 <= i < items@.len() implies (#[trigger] list@[i])@ == items@[i]@ by {
            assert(items_view(list@)[i] == items_view(items@)[i]);
        }
    }
}

/// The text under a key is read where there is one, and values are made as they are asked for.
pub proof fn law_values_are_made(
    value: &Json,
    key: &str,
    found: Option<&str>,
    s: &str,
    text: Json,
    object: Json,
)
    requires
        call_ensures(Json::get_str, (value, key), found),
        call_ensures(Json::text, (s,), text),
        call_ensures(Json::object, (), object),
    ensures
        match value@.get(key@) {
            Some(JsonView::Text(held)) => found matches Some(t) && t@ == held,
            _ => found is None,
        },
        text@ == JsonView::Text(s@),
        has_only(object@, Set::empty()),
{
}

} // verus!
