//! JSON text: reading and writing, by way of `serde_json`.
use vstd::prelude::*;
use crate::json::{
    items_view, lemma_item_is_smaller, lemma_member_is_smaller, members_view, FloatNumber, Json,
    JsonView,
};
use crate::text::is_white_space;

verus! {

/// A value as `serde_json` keeps it, on its way between text and `Json`.
#[verifier::external_type_specification]
#[verifier::external_body]
pub struct ExValue(serde_json::Value);

/// The members of an object as `serde_json` keeps them.
#[verifier::external_type_specification]
#[verifier::external_body]
#[verifier::reject_recursive_types(K)]
#[verifier::reject_recursive_types(V)]
pub struct ExMap<K, V>(serde_json::Map<K, V>);

/// What a `serde_json::Map` holds: its values by their keys.
pub uninterp spec fn map_json(map: serde_json::Map<String, serde_json::Value>) -> Map<
    Seq<char>,
    JsonView,
>;

/// What a `serde_json::Value` holds.
pub uninterp spec fn value_json(v: serde_json::Value) -> JsonView;

/// What `serde_json::from_str` makes of a text: the value that it spells, or
/// the words in which the text is refused.
pub uninterp spec fn json_of_text(text: Seq<char>) -> Result<JsonView, Seq<char>>;

/// The text that `serde_json::to_string` gives for a value.
pub uninterp spec fn text_of_json(value: JsonView) -> Seq<char>;

/// A value that holds no number but integers, and whose arrays and objects
/// are nested no more than `depth` deep.
pub open spec fn spells_back(value: JsonView, depth: nat) -> bool
    decreases depth,
{
    match value {
        JsonView::Float(_) => false,
        JsonView::Array(items) => depth > 0 && forall|i: int|
            0 <= i < items.len() ==> spells_back(#[trigger] items[i], (depth - 1) as nat),
        JsonView::Object(members) => depth > 0 && forall|key: Seq<char>|
            members.contains_key(key) ==> spells_back(#[trigger] members[key], (depth - 1) as nat),
        _ => true,
    }
}

/// How deep arrays and objects may be nested in a text that is read.
pub const MAX_DEPTH: u32 = 127;

/// The outermost layer of a `serde_json::Value`.
pub(crate) enum Layer {
    Null,
    Bool(bool),
    Unsigned(u64),
    Signed(i64),
    Float(FloatNumber),
    Text(String),
    Array(Vec<serde_json::Value>),
    Object(serde_json::Map<String, serde_json::Value>),
}

/// Entries by their keys, the later of two with one key.
pub(crate) open spec fn entries_json(entries: Seq<(String, serde_json::Value)>) -> Map<
    Seq<char>,
    JsonView,
>
    decreases entries.len(),
{
    if entries.len() == 0 {
        Map::empty()
    } else {
        entries_json(entries.drop_last()).insert(entries.last().0@, value_json(entries.last().1))
    }
}

impl Layer {
    pub(crate) open spec fn json(self) -> JsonView {
        match self {
            Layer::Null => JsonView::Null,
            Layer::Bool(b) => JsonView::Bool(b),
            Layer::Unsigned(n) => JsonView::Integer(n as int),
            Layer::Signed(n) => JsonView::Integer(n as int),
            Layer::Float(n) => JsonView::Float(n),
            Layer::Text(s) => JsonView::Text(s@),
            Layer::Array(items) => JsonView::Array(
                items@.map_values(|v: serde_json::Value| value_json(v)),
            ),
            Layer::Object(map) => JsonView::Object(map_json(map)),
        }
    }
}

/// No key occurs twice.
pub(crate) open spec fn keys_differ(entries: Seq<(String, serde_json::Value)>) -> bool {
    forall|i: int, j: int|
        0 <= i < j < entries.len() ==> #[trigger] entries[i].0@ != #[trigger] entries[j].0@
}

/// Reads a text by `serde_json::from_str`, as a `serde_json::Value`.
///
/// Believed: what comes back, value or error message, is determined by the
/// text.
#[verifier::external_body]
fn parse_value(text: &str) -> (r: Result<serde_json::Value, String>)
    ensures
        match r {
            Ok(v) => json_of_text(text@) == Ok::<JsonView, Seq<char>>(value_json(v)),
            Err(e) => json_of_text(text@) == Err::<JsonView, Seq<char>>(e@),
        },
{
    serde_json::from_str::<serde_json::Value>(text).map_err(|e| e.to_string())
}

/// Writes a value by `serde_json::to_string`, in the compact form.
///
/// Believed: a `Value` can always be written; the text is determined by what
/// the value holds; control characters are escaped in it and nothing is put
/// between its tokens, so it is free of line feeds and has no white space at
/// either end; and, where the value holds only integers for numbers and is
/// within the reader's limit on nesting, the text reads back as the value.
#[verifier::external_body]
fn print_value(v: &serde_json::Value) -> (r: Result<String, String>)
    ensures
        match r {
            Ok(text) => {
                &&& text@ == text_of_json(value_json(*v))
                &&& !text@.contains('\n')
                &&& text@.len() > 0
                &&& !is_white_space(text@.first())
                &&& !is_white_space(text@.last())
                &&& spells_back(value_json(*v), MAX_DEPTH as nat) ==> json_of_text(text@) == Ok::<
                    JsonView,
                    Seq<char>,
                >(value_json(*v))
            },
            Err(_) => false,
        },
{
    serde_json::to_string(v).map_err(|e| e.to_string())
}

/// Takes the outermost layer off a `serde_json::Value`.
///
/// Believed: the layer holds what the value held. A `Number` is one of three: an integer from
/// zero up (`as_u64`), one below zero (`as_i64`), or neither, and only one that is neither becomes
/// a `FloatNumber`.
#[verifier::external_body]
fn open_value(v: serde_json::Value) -> (r: Layer)
    ensures
        r.json() == value_json(v),
{
    match v {
        serde_json::Value::Null => Layer::Null,
        serde_json::Value::Bool(b) => Layer::Bool(b),
        serde_json::Value::Number(n) => match (n.as_u64(), n.as_i64()) {
            (Some(u), _) => Layer::Unsigned(u),
            (_, Some(i)) => Layer::Signed(i),
            _ => Layer::Float(FloatNumber { number: n }),
        },
        serde_json::Value::String(s) => Layer::Text(s),
        serde_json::Value::Array(items) => Layer::Array(items),
        serde_json::Value::Object(map) => Layer::Object(map),
    }
}

/// Makes a `serde_json::Value` of its outermost layer, with
/// `serde_json::Number::from` for integers.
///
/// Believed: the value holds what the layer held. The number in a `FloatNumber` is no integer,
/// for `open_value` alone makes them.
#[verifier::external_body]
fn close_value(layer: Layer) -> (r: serde_json::Value)
    ensures
        value_json(r) == layer.json(),
{
    match layer {
        Layer::Null => serde_json::Value::Null,
        Layer::Bool(b) => serde_json::Value::Bool(b),
        Layer::Unsigned(n) => serde_json::Value::Number(serde_json::Number::from(n)),
        Layer::Signed(n) => serde_json::Value::Number(serde_json::Number::from(n)),
        Layer::Float(n) => serde_json::Value::Number(n.number),
        Layer::Text(s) => serde_json::Value::String(s),
        Layer::Array(items) => serde_json::Value::Array(items),
        Layer::Object(map) => serde_json::Value::Object(map),
    }
}

/// Takes the members out of a `serde_json::Map`, by its `into_iter`.
///
/// Believed: the entries are those of the map, so that no key occurs twice. The order in which
/// they come is left unsaid.
#[verifier::external_body]
fn map_entries(map: serde_json::Map<String, serde_json::Value>) -> (r: Vec<
    (String, serde_json::Value),
>)
    ensures
        entries_json(r@) == map_json(map),
        keys_differ(r@),
{
    map.into_iter().collect()
}

/// Makes a map without members, by `serde_json::Map::new`.
///
/// Believed: there is nothing in it.
#[verifier::external_body]
fn new_map() -> (r: serde_json::Map<String, serde_json::Value>)
    ensures
        (map_json(r) == Map::<Seq<char>, JsonView>::empty()),
{
    serde_json::Map::new()
}

/// Puts a member into a map, by `serde_json::Map::insert`.
///
/// Believed: the value stands under the key afterwards, in the place of the one that stood there
/// before, which is handed back; the other members stay.
#[verifier::external_body]
fn insert_member(
    map: &mut serde_json::Map<String, serde_json::Value>,
    key: String,
    value: serde_json::Value,
) -> (r: Option<serde_json::Value>)
    ensures
        map_json(*final(map)) == map_json(*old(map)).insert(key@, value_json(value)),
        match r {
            Some(v) => map_json(*old(map)).contains_key(key@) && map_json(*old(map))[key@]
                == value_json(v),
            None => !map_json(*old(map)).contains_key(key@),
        },
{
    map.insert(key, value)
}

/// A layer stands for what it holds, item by item and entry by entry.
pub(crate) proof fn law_layers_are_what_they_hold(
    b: bool,
    unsigned: u64,
    signed: i64,
    text: String,
    items: Vec<serde_json::Value>,
    map: serde_json::Map<String, serde_json::Value>,
)
    ensures
        Layer::Null.json() == JsonView::Null,
        Layer::Bool(b).json() == JsonView::Bool(b),
        Layer::Unsigned(unsigned).json() == JsonView::Integer(unsigned as int),
        Layer::Signed(signed).json() == JsonView::Integer(signed as int),
        Layer::Text(text).json() == JsonView::Text(text@),
        Layer::Object(map).json() == JsonView::Object(map_json(map)),
        Layer::Array(items).json() matches JsonView::Array(views) && views.len() == items@.len()
            && forall|i: int| 0 <= i < items@.len() ==> #[trigger] views[i] == value_json(items@[i]),
{
}

/// Where no key occurs twice, each entry's value stands under its key.
proof fn lemma_entries(entries: Seq<(String, serde_json::Value)>)
    requires
        keys_differ(entries),
    ensures
        entries_json(entries).dom().finite(),
        forall|i: int|
            0 <= i < entries.len() ==> entries_json(entries).contains_key(
                #[trigger] entries[i].0@,
            ) && entries_json(entries)[entries[i].0@] == value_json(entries[i].1),
    decreases entries.len(),
{
    if entries.len() > 0 {
        let init = entries.drop_last();
        lemma_entries(init);
        assert forall|i: int| 0 <= i < entries.len() implies entries_json(entries).contains_key(
            #[trigger] entries[i].0@,
        ) && entries_json(entries)[entries[i].0@] == value_json(entries[i].1) by {
            if i < entries.len() - 1 {
                assert(init[i].0@ == entries[i].0@);
                assert(entries[i].0@ != entries[entries.len() - 1].0@);
            }
        }
    }
}

/// Brings a `serde_json::Value` into the library's own form.
fn json_of_value(v: serde_json::Value) -> (r: Json)
    ensures
        r@ == value_json(v),
    decreases value_json(v),
{
    let ghost whole = value_json(v);
    match open_value(v) {
        Layer::Null => Json::Null,
        Layer::Bool(b) => Json::Bool(b),
        Layer::Unsigned(n) => Json::Unsigned(n),
        Layer::Signed(n) => Json::Signed(n),
        Layer::Float(n) => Json::Float(n),
        Layer::Text(s) => Json::Text(s),
        Layer::Array(items) => {
            let ghost views = items@.map_values(|v: serde_json::Value| value_json(v));
            let ghost all = items@;
            let mut out: Vec<Json> = Vec::new();
            for item in it: items
                invariant
                    it.seq() == all,
                    whole == value_json(v),
                    whole == JsonView::Array(views),
                    views == all.map_values(|v: serde_json::Value| value_json(v)),
                    items_view(out@) == views.take(it.index()),
            {
                let ghost k = it.index();
                let ghost before = out@;
                assert(views[k] == value_json(item));
                assert(decreases_to!(whole => whole->Array_0));
                assert(decreases_to!(whole->Array_0 => whole->Array_0[k]));
                out.push(json_of_value(item));
                assert(out@.drop_last() =~= before);
                assert(views.take(k + 1) =~= views.take(k).push(views[k]));
            }
            assert(views.take(views.len() as int) =~= views);
            Json::Array(out)
        },
        Layer::Object(map) => {
            let entries = map_entries(map);
            let ghost all = entries@;
            proof {
                lemma_entries(all);
            }
            let mut out: Vec<(String, Json)> = Vec::new();
            for entry in it: entries
                invariant
                    it.seq() == all,
                    whole == value_json(v),
                    whole == JsonView::Object(entries_json(all)),
                    entries_json(all).dom().finite(),
                    forall|i: int|
                        0 <= i < all.len() ==> entries_json(all).contains_key(
                            #[trigger] all[i].0@,
                        ) && entries_json(all)[all[i].0@] == value_json(all[i].1),
                    members_view(out@) == entries_json(all.take(it.index())),
            {
                let ghost k = it.index();
                let ghost before = out@;
                assert(entry == all[k]);
                assert(entries_json(all)[all[k].0@] == value_json(entry.1));
                assert(decreases_to!(whole => whole->Object_0));
                assert(decreases_to!(whole->Object_0 => whole->Object_0[all[k].0@]));
                out.push((entry.0, json_of_value(entry.1)));
                assert(out@.drop_last() =~= before);
                assert(all.take(k + 1).drop_last() =~= all.take(k));
            }
            assert(all.take(all.len() as int) =~= all);
            Json::Object(out)
        },
    }
}

/// Brings a value of the library into the form of `serde_json`.
fn value_of_json(json: Json) -> (r: serde_json::Value)
    ensures
        value_json(r) == json@,
    decreases json,
{
    let ghost whole = json;
    let layer = match json {
        Json::Null => Layer::Null,
        Json::Bool(b) => Layer::Bool(b),
        Json::Unsigned(n) => Layer::Unsigned(n),
        Json::Signed(n) => Layer::Signed(n),
        Json::Float(n) => Layer::Float(n),
        Json::Text(s) => Layer::Text(s),
        Json::Array(items) => {
            let ghost all = items@;
            let mut out: Vec<serde_json::Value> = Vec::new();
            for item in it: items
                invariant
                    it.seq() == all,
                    whole == json,
                    whole is Array,
                    out.len() == it.index(),
                    whole->Array_0@ == all,
                    items_view(all.take(it.index())) == out@.map_values(
                        |v: serde_json::Value| value_json(v),
                    ),
            {
                let ghost k = it.index();
                let ghost before = out@;
                proof {
                    lemma_item_is_smaller(whole, k);
                }
                out.push(value_of_json(item));
                assert(all.take(k + 1).drop_last() =~= all.take(k));
                assert(out@.map_values(|v: serde_json::Value| value_json(v))
                    =~= before.map_values(|v: serde_json::Value| value_json(v)).push(
                    value_json(out@[k]),
                ));
            }
            assert(all.take(all.len() as int) =~= all);
            Layer::Array(out)
        },
        Json::Object(members) => {
            let ghost all = members@;
            let mut out = new_map();
            for member in it: members
                invariant
                    it.seq() == all,
                    whole == json,
                    whole is Object,
                    whole->Object_0@ == all,
                    members_view(all.take(it.index())) == map_json(out),
            {
                let ghost k = it.index();
                proof {
                    lemma_member_is_smaller(whole, k);
                }
                let value = value_of_json(member.1);
                let _ = insert_member(&mut out, member.0, value);
                assert(all.take(k + 1).drop_last() =~= all.take(k));
            }
            assert(all.take(all.len() as int) =~= all);
            Layer::Object(out)
        },
    };
    close_value(layer)
}

/// Reads a JSON text.
pub fn read_json(text: &str) -> (r: Result<Json, String>)
    ensures
        match r {
            Ok(json) => json_of_text(text@) == Ok::<JsonView, Seq<char>>(json@),
            Err(e) => json_of_text(text@) == Err::<JsonView, Seq<char>>(e@),
        },
{
    match parse_value(text) {
        Ok(v) => Ok(json_of_value(v)),
        Err(e) => Err(e),
    }
}

/// Writes a JSON value as text on one line.
pub fn write_json(json: &Json) -> (r: String)
    ensures
        r@ == text_of_json(json@),
        !r@.contains('\n'),
        r@.len() > 0,
        !is_white_space(r@.first()),
        !is_white_space(r@.last()),
        spells_back(json@, MAX_DEPTH as nat) ==> json_of_text(r@) == Ok::<JsonView, Seq<char>>(
            json@,
        ),
{
    let value = value_of_json(json.clone());
    print_value(&value).unwrap()
}

} // verus!
