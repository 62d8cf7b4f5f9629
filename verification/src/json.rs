//! JSON values as the library reads and builds them.
use crate::text::{same, texts};
use vstd::prelude::*;
use vstd::string::*;

verus! {

broadcast use {vstd::seq::group_seq_axioms, vstd::string::group_string_axioms};

/// A JSON value. A number is the text that `serde_json` writes it as.
#[derive(Debug)]
pub enum Json {
    Null,
    Bool(bool),
    Number(String),
    Text(String),
    Array(Vec<Json>),
    Object(Vec<(String, Json)>),
}

/// A JSON value as a mathematical object.
pub ghost enum JsonModel {
    Null,
    Bool(bool),
    Number(Seq<char>),
    Text(Seq<char>),
    Array(Seq<JsonModel>),
    Object(Seq<(Seq<char>, JsonModel)>),
}

/// What a value stands for.
pub open spec fn model_of(value: Json) -> JsonModel
    decreases value,
{
    match value {
        Json::Null => JsonModel::Null,
        Json::Bool(b) => JsonModel::Bool(b),
        Json::Number(n) => JsonModel::Number(n@),
        Json::Text(t) => JsonModel::Text(t@),
        Json::Array(items) => JsonModel::Array(
            Seq::new(
                items@.len(),
                |i: int|
                    if 0 <= i < items@.len() {
                        model_of(items@[i])
                    } else {
                        JsonModel::Null
                    },
            ),
        ),
        Json::Object(members) => JsonModel::Object(
            Seq::new(
                members@.len(),
                |i: int|
                    if 0 <= i < members@.len() {
                        (members@[i].0@, model_of(members@[i].1))
                    } else {
                        (seq![], JsonModel::Null)
                    },
            ),
        ),
    }
}

impl View for Json {
    type V = JsonModel;

    open spec fn view(&self) -> JsonModel {
        model_of(*self)
    }
}


// ---------------------------------------------------------------------------
// Reading text
// ---------------------------------------------------------------------------

/// A value as `serde_json` holds it.
#[verifier::external_type_specification]
#[verifier::external_body]
pub struct ExValue(serde_json::Value);

/// What `serde_json::from_str` makes of a text: the value, or the text of its error.
pub uninterp spec fn json_read(text: Seq<char>) -> Result<JsonModel, Seq<char>>;

/// What a value of `serde_json` holds.
pub uninterp spec fn value_model(value: serde_json::Value) -> JsonModel;

/// `serde_json::from_str`. What it makes of a text depends on the text alone.
#[verifier::external_body]
fn value_from_str(text: &str) -> (r: Result<serde_json::Value, String>)
    ensures
        match r {
            Ok(value) => json_read(text@) == Ok::<JsonModel, Seq<char>>(value_model(value)),
            Err(e) => json_read(text@) == Err::<JsonModel, Seq<char>>(e@),
        },
{
    serde_json::from_str::<serde_json::Value>(text).map_err(|e| e.to_string())
}

/// The variants of `serde_json::Value`, one for one. A number becomes the text that it
/// is written as.
#[verifier::external_body]
fn value_parts(value: serde_json::Value) -> (r: Json)
    ensures
        r@ == value_model(value),
{
    match value {
        serde_json::Value::Null => Json::Null,
        serde_json::Value::Bool(b) => Json::Bool(b),
        serde_json::Value::Number(n) => Json::Number(n.to_string()),
        serde_json::Value::String(s) => Json::Text(s),
        serde_json::Value::Array(a) => Json::Array(a.into_iter().map(value_parts).collect()),
        serde_json::Value::Object(o) => Json::Object(
            o.into_iter().map(|(k, v)| (k, value_parts(v))).collect(),
        ),
    }
}

/// Reads a JSON text. The error is what the reader said.
pub fn parse_json(text: &str) -> (r: Result<Json, String>)
    ensures
        match r {
            Ok(value) => json_read(text@) == Ok::<JsonModel, Seq<char>>(value@),
            Err(e) => json_read(text@) == Err::<JsonModel, Seq<char>>(e@),
        },
{
    match value_from_str(text) {
        Ok(value) => Ok(value_parts(value)),
        Err(e) => Err(e),
    }
}

// ---------------------------------------------------------------------------
// Looking into a value
// ---------------------------------------------------------------------------

/// The place of the first member of that name.
pub open spec fn member_place(members: Seq<(Seq<char>, JsonModel)>, key: Seq<char>) -> Option<int>
    decreases members.len(),
{
    if members.len() == 0 {
        None
    } else if members[0].0 == key {
        Some(0)
    } else {
        match member_place(members.skip(1), key) {
            Some(i) => Some(i + 1),
            None => None,
        }
    }
}

/// The member of an object, and null where there is none.
pub open spec fn at_key(value: JsonModel, key: Seq<char>) -> JsonModel {
    match value {
        JsonModel::Object(members) => match member_place(members, key) {
            Some(i) => members[i].1,
            None => JsonModel::Null,
        },
        _ => JsonModel::Null,
    }
}

/// The item of an array, and null where there is none.
pub open spec fn at_index(value: JsonModel, i: int) -> JsonModel {
    match value {
        JsonModel::Array(items) => if 0 <= i < items.len() {
            items[i]
        } else {
            JsonModel::Null
        },
        _ => JsonModel::Null,
    }
}

/// The text that a value is, if it is one.
pub open spec fn as_text(value: JsonModel) -> Option<Seq<char>> {
    match value {
        JsonModel::Text(t) => Some(t),
        _ => None,
    }
}

/// The value behind an optional reference, and null behind none.
pub open spec fn seen(value: Option<&Json>) -> JsonModel {
    match value {
        Some(v) => v@,
        None => JsonModel::Null,
    }
}

proof fn lemma_member_place(members: Seq<(Seq<char>, JsonModel)>, key: Seq<char>, i: int)
    requires
        0 <= i < members.len(),
        members[i].0 == key,
        forall|j: int| 0 <= j < i ==> (#[trigger] members[j]).0 != key,
    ensures
        member_place(members, key) == Some(i),
    decreases members.len(),
{
    if i > 0 {
        assert(members[0].0 != key);
        let rest = members.skip(1);
        assert forall|j: int| 0 <= j < i - 1 implies (#[trigger] rest[j]).0 != key by {
            assert(rest[j] == members[j + 1]);
        }
        lemma_member_place(rest, key, i - 1);
    }
}

proof fn lemma_no_member(members: Seq<(Seq<char>, JsonModel)>, key: Seq<char>)
    requires
        forall|j: int| 0 <= j < members.len() ==> (#[trigger] members[j]).0 != key,
    ensures
        member_place(members, key) is None,
    decreases members.len(),
{
    if members.len() > 0 {
        assert(members[0].0 != key);
        let rest = members.skip(1);
        assert forall|j: int| 0 <= j < rest.len() implies (#[trigger] rest[j]).0 != key by {
            assert(rest[j] == members[j + 1]);
        }
        lemma_no_member(rest, key);
    }
}

/// The member of an object.
pub fn key_of<'a>(value: Option<&'a Json>, key: &str) -> (r: Option<&'a Json>)
    ensures
        seen(r) == at_key(seen(value), key@),
{
    match value {
        Some(Json::Object(members)) => {
            let ghost all = seen(value)->Object_0;
            let mut i: usize = 0;
            while i < members.len()
                invariant
                    i <= members@.len(),
                    all.len() == members@.len(),
                    forall|j: int|
                        0 <= j < all.len() ==> #[trigger] all[j] == (
                            members@[j].0@,
                            members@[j].1@,
                        ),
                    seen(value) == JsonModel::Object(all),
                    forall|j: int| 0 <= j < i ==> (#[trigger] all[j]).0 != key@,
                decreases members@.len() - i,
            {
                assert(all[i as int] == (members@[i as int].0@, members@[i as int].1@));
                if same(&members[i].0, key) {
                    proof {
                        lemma_member_place(all, key@, i as int);
                    }
                    return Some(&members[i].1);
                }
                i += 1;
            }
            proof {
                lemma_no_member(all, key@);
            }
            None
        },
        _ => None,
    }
}

/// The item of an array.
pub fn item_of<'a>(value: Option<&'a Json>, i: usize) -> (r: Option<&'a Json>)
    ensures
        seen(r) == at_index(seen(value), i as int),
{
    match value {
        Some(Json::Array(items)) => if i < items.len() {
            Some(&items[i])
        } else {
            None
        },
        _ => None,
    }
}

/// The text that a value is, if it is one.
pub fn text_of(value: Option<&Json>) -> (r: Option<String>)
    ensures
        match r {
            Some(t) => as_text(seen(value)) == Some(t@),
            None => as_text(seen(value)) is None,
        },
{
    match value {
        Some(Json::Text(t)) => Some(t.clone()),
        _ => None,
    }
}

/// Whether a value is `true`.
pub fn is_true(value: Option<&Json>) -> (r: bool)
    ensures
        r == (seen(value) == JsonModel::Bool(true)),
{
    match value {
        Some(Json::Bool(b)) => *b,
        _ => false,
    }
}

/// The text that each part of a list has under `text`, where it has one.
pub open spec fn part_texts(parts: Seq<JsonModel>) -> Seq<Seq<char>>
    decreases parts.len(),
{
    if parts.len() == 0 {
        seq![]
    } else {
        match as_text(at_key(parts.last(), "text"@)) {
            Some(t) => part_texts(parts.drop_last()).push(t),
            None => part_texts(parts.drop_last()),
        }
    }
}

/// The text that each part of a list has under `text`, where it has one; nothing where
/// the value is no list.
pub fn texts_of_parts(value: Option<&Json>) -> (r: Option<Vec<String>>)
    ensures
        match r {
            Some(list) => seen(value) matches JsonModel::Array(parts) && texts(list@) == part_texts(
                parts,
            ),
            None => !(seen(value) is Array),
        },
{
    match value {
        Some(Json::Array(items)) => {
            let ghost all = seen(value)->Array_0;
            let mut out: Vec<String> = Vec::new();
            let mut i: usize = 0;
            assert(all.take(0) =~= seq![]);
            assert(texts(out@) =~= seq![]);
            while i < items.len()
                invariant
                    i <= items@.len(),
                    all.len() == items@.len(),
                    forall|j: int| 0 <= j < all.len() ==> #[trigger] all[j] == items@[j]@,
                    texts(out@) == part_texts(all.take(i as int)),
                decreases items@.len() - i,
            {
                let ghost had = texts(out@);
                assert(all.take(i + 1).drop_last() =~= all.take(i as int));
                assert(all.take(i + 1).last() == all[i as int]);
                if let Some(t) = text_of(key_of(Some(&items[i]), "text")) {
                    let ghost tv = t@;
                    out.push(t);
                    assert(texts(out@) =~= had.push(tv));
                }
                i += 1;
            }
            assert(all.take(all.len() as int) =~= all);
            Some(out)
        },
        _ => None,
    }
}

// ---------------------------------------------------------------------------
// Building a value
// ---------------------------------------------------------------------------

/// A list of texts as a value.
pub open spec fn text_list(list: Seq<Seq<char>>) -> JsonModel {
    JsonModel::Array(Seq::new(list.len(), |i: int| JsonModel::Text(list[i])))
}

/// A text as a value.
pub fn text(s: &str) -> (r: Json)
    ensures
        r@ == JsonModel::Text(s@),
{
    Json::Text(s.to_owned())
}

/// A list of texts as a value.
pub fn list_of(list: &Vec<String>) -> (r: Json)
    ensures
        r@ == text_list(texts(list@)),
{
    let mut items: Vec<Json> = Vec::new();
    let mut i: usize = 0;
    while i < list.len()
        invariant
            i <= list@.len(),
            items@.len() == i,
            forall|j: int| 0 <= j < i ==> (#[trigger] items@[j])@ == JsonModel::Text(list@[j]@),
        decreases list@.len() - i,
    {
        items.push(text(&list[i]));
        i += 1;
    }
    let r = Json::Array(items);
    assert(r@->Array_0 =~= text_list(texts(list@))->Array_0);
    r
}

/// An object without members.
pub fn object() -> (r: Json)
    ensures
        r is Object,
        r@ == JsonModel::Object(seq![]),
{
    let r = Json::Object(Vec::new());
    assert(r@->Object_0 =~= seq![]);
    r
}

/// An object with one member more.
pub fn with(object: Json, key: &str, value: Json) -> (r: Json)
    requires
        object is Object,
    ensures
        r is Object,
        r@ == JsonModel::Object(object@->Object_0.push((key@, value@))),
{
    let ghost had = object@->Object_0;
    let ghost v = value@;
    match object {
        Json::Object(members) => {
            let mut all = members;
            all.push((key.to_owned(), value));
            let r = Json::Object(all);
            assert(r@->Object_0 =~= had.push((key@, v)));
            r
        },
        other => other,
    }
}

/// A list with one item more.
pub fn with_item(list: Json, value: Json) -> (r: Json)
    requires
        list is Array,
    ensures
        r is Array,
        r@ == JsonModel::Array(list@->Array_0.push(value@)),
{
    let ghost had = list@->Array_0;
    let ghost v = value@;
    match list {
        Json::Array(items) => {
            let mut all = items;
            all.push(value);
            let r = Json::Array(all);
            assert(r@->Array_0 =~= had.push(v));
            r
        },
        other => other,
    }
}

/// A list without items.
pub fn list() -> (r: Json)
    ensures
        r is Array,
        r@ == JsonModel::Array(seq![]),
{
    let r = Json::Array(Vec::new());
    assert(r@->Array_0 =~= seq![]);
    r
}


/// A member that is added is found under its name, unless there was one of that name, and
/// the others stay.
pub proof fn lemma_added_member(
    members: Seq<(Seq<char>, JsonModel)>,
    name: Seq<char>,
    value: JsonModel,
    key: Seq<char>,
)
    ensures
        at_key(JsonModel::Object(members.push((name, value))), key) == (if member_place(
            members,
            key,
        ) is Some {
            at_key(JsonModel::Object(members), key)
        } else if name == key {
            value
        } else {
            JsonModel::Null
        }),
        member_place(members.push((name, value)), key) is Some <==> member_place(members, key) is Some
            || name == key,
        member_place(members, key) matches Some(i) ==> 0 <= i < members.len() && member_place(
            members.push((name, value)),
            key,
        ) == Some(i),
        member_place(members, key) is None && name == key ==> member_place(
            members.push((name, value)),
            key,
        ) == Some(members.len() as int),
    decreases members.len(),
{
    let more = members.push((name, value));
    if members.len() == 0 {
        assert(more[0] == (name, value));
        assert(more.skip(1) =~= seq![]);
    } else {
        assert(more[0] == members[0]);
        assert(more.skip(1) =~= members.skip(1).push((name, value)));
        lemma_added_member(members.skip(1), name, value, key);
    }
}

/// The member of an object is the first of its name, and null where there is none or the value
/// is no object; the item of an array is the one at its place, and null where there is none.
pub proof fn law_members_are_found_by_name(
    members: Seq<(Seq<char>, JsonModel)>,
    key: Seq<char>,
    i: int,
)
    requires
        0 <= i <= members.len(),
        forall|j: int| 0 <= j < i ==> (#[trigger] members[j]).0 != key,
        i < members.len() ==> members[i].0 == key,
    ensures
        i < members.len() ==> at_key(JsonModel::Object(members), key) == members[i].1,
        i == members.len() ==> at_key(JsonModel::Object(members), key) is Null,
        forall|v: JsonModel| !(v is Object) ==> (#[trigger] at_key(v, key)) is Null,
        forall|items: Seq<JsonModel>, k: int|
            0 <= k < items.len() ==> #[trigger] at_index(JsonModel::Array(items), k) == items[k],
        forall|items: Seq<JsonModel>, k: int|
            !(0 <= k < items.len()) ==> (#[trigger] at_index(JsonModel::Array(items), k)) is Null,
        forall|v: JsonModel, k: int| !(v is Array) ==> (#[trigger] at_index(v, k)) is Null,
        forall|t: Seq<char>| #[trigger] as_text(JsonModel::Text(t)) == Some(t),
        forall|v: JsonModel| !(v is Text) ==> (#[trigger] as_text(v)) is None,
{
    if i < members.len() {
        lemma_member_place(members, key, i);
    } else {
        lemma_no_member(members, key);
    }
}

/// A part with a text adds it behind the texts of the parts before it, and one without adds
/// nothing; a list of texts holds each as a text in its place.
pub proof fn law_parts_add_their_texts(parts: Seq<JsonModel>, part: JsonModel, list: Seq<Seq<char>>)
    ensures
        part_texts(seq![]).len() == 0,
        as_text(at_key(part, "text"@)) matches Some(t) ==> part_texts(parts.push(part))
            == part_texts(parts).push(t),
        as_text(at_key(part, "text"@)) is None ==> part_texts(parts.push(part)) == part_texts(parts),
        text_list(list) matches JsonModel::Array(items) && items.len() == list.len() && forall|i: int|
            0 <= i < list.len() ==> items[i] == JsonModel::Text(#[trigger] list[i]),
{
    assert(parts.push(part).drop_last() =~= parts);
}

/// A value is seen part by part: each item of a list, and each member of an object under its name.
pub proof fn law_values_are_seen_part_by_part(
    items: Vec<Json>,
    members: Vec<(String, Json)>,
    i: int,
)
    ensures
        model_of(Json::Array(items)) matches JsonModel::Array(list) && list.len() == items@.len() && (
        0 <= i < items@.len() ==> list[i] == model_of(items@[i])),
        model_of(Json::Object(members)) matches JsonModel::Object(list) && list.len()
            == members@.len() && (0 <= i < members@.len() ==> list[i] == (
            members@[i].0@,
            model_of(members@[i].1),
        )),
{
}

}
