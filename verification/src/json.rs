//! JSON values and the questions that the protocol asks of them.
use vstd::prelude::*;
use crate::text::same_text;

verus! {

/// A number as `serde_json` keeps it.
#[verifier::external_type_specification]
#[verifier::external_body]
pub struct ExNumber(serde_json::Number);

/// Believed of the `Clone` of `serde_json::Number`: the copy is the same number.
pub assume_specification[ <serde_json::Number as Clone>::clone ](n: &serde_json::Number) -> (r:
    serde_json::Number)
    ensures
        r == *n,
;

/// A number that is no integer of 64 bits, carried along unread. Only reading a text makes one.
#[derive(Debug, PartialEq)]
pub struct FloatNumber {
    pub(crate) number: serde_json::Number,
}

/// What a JSON value is, without regard to how it is held.
pub enum JsonView {
    Null,
    Bool(bool),
    Integer(int),
    Float(FloatNumber),
    Text(Seq<char>),
    Array(Seq<JsonView>),
    Object(Map<Seq<char>, JsonView>),
}

/// A JSON value. In an object, of two members with one key the later counts.
#[derive(Debug, PartialEq)]
pub enum Json {
    Null,
    Bool(bool),
    Unsigned(u64),
    Signed(i64),
    Float(FloatNumber),
    Text(String),
    Array(Vec<Json>),
    Object(Vec<(String, Json)>),
}

/// The values of a list of JSON values.
pub open spec fn items_view(items: Seq<Json>) -> Seq<JsonView>
    decreases items,
{
    if items.len() == 0 {
        Seq::empty()
    } else {
        items_view(items.drop_last()).push(items.last().json())
    }
}

/// The members of an object by their keys.
pub open spec fn members_view(members: Seq<(String, Json)>) -> Map<Seq<char>, JsonView>
    decreases members,
{
    if members.len() == 0 {
        Map::empty()
    } else {
        members_view(members.drop_last()).insert(members.last().0@, members.last().1.json())
    }
}

impl Json {
    pub open spec fn json(self) -> JsonView
        decreases self,
    {
        match self {
            Json::Null => JsonView::Null,
            Json::Bool(b) => JsonView::Bool(b),
            Json::Unsigned(n) => JsonView::Integer(n as int),
            Json::Signed(n) => JsonView::Integer(n as int),
            Json::Float(n) => JsonView::Float(n),
            Json::Text(s) => JsonView::Text(s@),
            Json::Array(items) => JsonView::Array(items_view(items@)),
            Json::Object(members) => JsonView::Object(members_view(members@)),
        }
    }
}

impl View for Json {
    type V = JsonView;

    open spec fn view(&self) -> JsonView {
        self.json()
    }
}

impl JsonView {
    /// The member `key`, where the value is an object that has one.
    pub open spec fn get(self, key: Seq<char>) -> Option<JsonView> {
        match self {
            JsonView::Object(members) => if members.contains_key(key) {
                Some(members[key])
            } else {
                None
            },
            _ => None,
        }
    }

    /// The text, where the value is one.
    pub open spec fn as_text(self) -> Option<Seq<char>> {
        match self {
            JsonView::Text(s) => Some(s),
            _ => None,
        }
    }

    /// The number, where the value is an integer that 64 bits without a sign can hold.
    pub open spec fn as_u64(self) -> Option<u64> {
        match self {
            JsonView::Integer(n) => if 0 <= n <= u64::MAX {
                Some(n as u64)
            } else {
                None
            },
            _ => None,
        }
    }

    /// The items, where the value is an array.
    pub open spec fn as_array(self) -> Option<Seq<JsonView>> {
        match self {
            JsonView::Array(items) => Some(items),
            _ => None,
        }
    }

    /// The text under `key`, where there is one.
    pub open spec fn get_text(self, key: Seq<char>) -> Option<Seq<char>> {
        match self.get(key) {
            Some(v) => v.as_text(),
            None => None,
        }
    }

    /// The object with `value` under `key` and its other members as they are.
    pub open spec fn with(self, key: Seq<char>, value: JsonView) -> JsonView {
        match self {
            JsonView::Object(members) => JsonView::Object(members.insert(key, value)),
            _ => JsonView::Object(Map::empty().insert(key, value)),
        }
    }

    /// The object without members.
    pub open spec fn empty_object() -> JsonView {
        JsonView::Object(Map::empty())
    }
}

/// A list of values and its view agree item by item.
pub proof fn lemma_items_view(items: Seq<Json>)
    ensures
        items_view(items).len() == items.len(),
        forall|i: int|
            0 <= i < items.len() ==> #[trigger] items_view(items)[i] == items[i]@,
    decreases items.len(),
{
    if items.len() > 0 {
        lemma_items_view(items.drop_last());
    }
}

/// Recursion from an array to its items ends.
pub proof fn lemma_item_is_smaller(array: Json, i: int)
    requires
        array is Array,
        0 <= i < array->Array_0@.len(),
    ensures
        decreases_to!(array => array->Array_0@[i]),
{
    assert(decreases_to!(array => array->Array_0));
    assert(decreases_to!(array->Array_0 => array->Array_0@));
    assert(decreases_to!(array->Array_0@ => array->Array_0@[i]));
}

/// Recursion from an object to its members ends.
pub proof fn lemma_member_is_smaller(object: Json, i: int)
    requires
        object is Object,
        0 <= i < object->Object_0@.len(),
    ensures
        decreases_to!(object => object->Object_0@[i].1),
{
    assert(decreases_to!(object => object->Object_0));
    assert(decreases_to!(object->Object_0 => object->Object_0@));
    assert(decreases_to!(object->Object_0@ => object->Object_0@[i]));
    assert(decreases_to!(object->Object_0@[i] => object->Object_0@[i].1));
}

impl Json {
    /// The member `key`, where the value is an object that has one.
    pub fn get(&self, key: &str) -> (r: Option<&Json>)
        ensures
            match r {
                Some(v) => self@.get(key@) == Some(v@),
                None => self@.get(key@) is None,
            },
    {
        match self {
            Json::Object(members) => {
                let mut i: usize = members.len();
                assert(members@.take(i as int) =~= members@);
                while i > 0
                    invariant
                        i <= members.len(),
                        self@ == JsonView::Object(members_view(members@)),
                        self@.get(key@) == JsonView::Object(
                            members_view(members@.take(i as int)),
                        ).get(key@),
                    decreases i,
                {
                    assert(members@.take(i as int).drop_last() =~= members@.take(i - 1));
                    assert(members@.take(i as int).last() == members@[i - 1]);
                    if same_text(members[i - 1].0.as_str(), key) {
                        return Some(&members[i - 1].1);
                    }
                    i -= 1;
                }
                assert(members@.take(0) =~= Seq::empty());
                None
            },
            _ => None,
        }
    }

    /// The text, where the value is one.
    pub fn as_str(&self) -> (r: Option<&str>)
        ensures
            match r {
                Some(s) => self@.as_text() == Some(s@),
                None => self@.as_text() is None,
            },
    {
        match self {
            Json::Text(s) => Some(s.as_str()),
            _ => None,
        }
    }

    /// The number, where the value is an integer that 64 bits without a sign can hold.
    pub fn as_u64(&self) -> (r: Option<u64>)
        ensures
            r == self@.as_u64(),
    {
        match self {
            Json::Unsigned(n) => Some(*n),
            Json::Signed(n) => if *n >= 0 {
                Some(*n as u64)
            } else {
                None
            },
            _ => None,
        }
    }

    /// The items, where the value is an array.
    pub fn as_array(&self) -> (r: Option<&Vec<Json>>)
        ensures
            match r {
                Some(items) => self@.as_array() == Some(items_view(items@)),
                None => self@.as_array() is None,
            },
    {
        match self {
            Json::Array(items) => Some(items),
            _ => None,
        }
    }

    /// The text under `key`, where there is one.
    pub fn get_str(&self, key: &str) -> (r: Option<&str>)
        ensures
            match r {
                Some(s) => self@.get_text(key@) == Some(s@),
                None => self@.get_text(key@) is None,
            },
    {
        match self.get(key) {
            Some(v) => v.as_str(),
            None => None,
        }
    }

    /// The JSON text `s`.
    pub fn text(s: &str) -> (r: Json)
        ensures
            r@ == JsonView::Text(s@),
    {
        Json::Text(s.to_string())
    }

    /// The object without members.
    pub fn object() -> (r: Json)
        ensures
            r@ == JsonView::empty_object(),
    {
        Json::Object(Vec::new())
    }

    /// The object with `value` under `key` and its other members as they are.
    pub fn with(self, key: &str, value: Json) -> (r: Json)
        ensures
            r@ == self@.with(key@, value@),
    {
        let mut members: Vec<(String, Json)> = match self {
            Json::Object(members) => members,
            _ => Vec::new(),
        };
        let ghost before = members@;
        let ghost shown = value@;
        members.push((key.to_string(), value));
        assert(members@.drop_last() =~= before);
        assert(members_view(members@) == members_view(before).insert(key@, shown));
        Json::Object(members)
    }
}

impl Clone for Json {
    fn clone(&self) -> (r: Self)
        ensures
            r@ == self@,
        decreases self,
    {
        match self {
            Json::Null => Json::Null,
            Json::Bool(b) => Json::Bool(*b),
            Json::Unsigned(n) => Json::Unsigned(*n),
            Json::Signed(n) => Json::Signed(*n),
            Json::Float(n) => Json::Float(FloatNumber { number: n.number.clone() }),
            Json::Text(s) => Json::Text(s.clone()),
            Json::Array(items) => {
                let mut out: Vec<Json> = Vec::new();
                let mut i: usize = 0;
                assert(items@.take(0) =~= Seq::empty());
                while i < items.len()
                    invariant
                        i <= items.len(),
                        *self == Json::Array(*items),
                        items_view(out@) == items_view(items@.take(i as int)),
                    decreases items.len() - i,
                {
                    let ghost before = out@;
                    proof {
                        lemma_item_is_smaller(*self, i as int);
                    }
                    let item = items[i].clone();
                    out.push(item);
                    assert(out@.drop_last() =~= before);
                    assert(items@.take(i + 1).drop_last() =~= items@.take(i as int));
                    i += 1;
                }
                assert(items@.take(items.len() as int) =~= items@);
                Json::Array(out)
            },
            Json::Object(members) => {
                let mut out: Vec<(String, Json)> = Vec::new();
                let mut i: usize = 0;
                assert(members@.take(0) =~= Seq::empty());
                while i < members.len()
                    invariant
                        i <= members.len(),
                        *self == Json::Object(*members),
                        members_view(out@) == members_view(members@.take(i as int)),
                    decreases members.len() - i,
                {
                    let ghost before = out@;
                    proof {
                        lemma_member_is_smaller(*self, i as int);
                    }
                    let value = members[i].1.clone();
                    out.push((members[i].0.clone(), value));
                    assert(out@.drop_last() =~= before);
                    assert(members@.take(i + 1).drop_last() =~= members@.take(i as int));
                    i += 1;
                }
                assert(members@.take(members.len() as int) =~= members@);
                Json::Object(out)
            },
        }
    }
}

} // verus!
