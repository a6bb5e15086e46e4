//! JSON documents as the bot exchanges them with its services.
//!
//! `Json` is the executable document; `JsonValue` is its mathematical model.
//! Reading text into a document and writing a document out as text is left to
//! serde_json; everything that looks into a document is verified here.
use vstd::prelude::*;

use crate::error::BotError;

verus! {

/// Mathematical model of a JSON document.
#[verifier::ext_equal]
pub enum JsonValue {
    Null,
    Bool(bool),
    /// A number, held as its JSON text.
    Number(Seq<char>),
    Str(Seq<char>),
    Array(Seq<JsonValue>),
    /// Members in their order; a key is looked up at its first occurrence.
    Object(Seq<(Seq<char>, JsonValue)>),
}

/// A JSON document.
#[derive(Debug, PartialEq)]
pub enum Json {
    Null,
    Bool(bool),
    /// A number, held as its JSON text (as serde_json writes it).
    Number(String),
    Str(String),
    Array(Vec<Json>),
    /// Members in their order.
    Object(Vec<(String, Json)>),
}

pub open spec fn json_view(j: Json) -> JsonValue
    decreases j,
{
    match j {
        Json::Null => JsonValue::Null,
        Json::Bool(b) => JsonValue::Bool(b),
        Json::Number(n) => JsonValue::Number(n@),
        Json::Str(s) => JsonValue::Str(s@),
        Json::Array(items) => JsonValue::Array(items_view(items@)),
        Json::Object(members) => JsonValue::Object(members_view(members@)),
    }
}

/// The models of a sequence of documents.
pub open spec fn items_view(items: Seq<Json>) -> Seq<JsonValue>
    decreases items,
{
    if items.len() == 0 {
        Seq::empty()
    } else {
        items_view(items.drop_last()).push(json_view(items.last()))
    }
}

/// The models of a sequence of object members.
pub open spec fn members_view(members: Seq<(String, Json)>) -> Seq<(Seq<char>, JsonValue)>
    decreases members,
{
    if members.len() == 0 {
        Seq::empty()
    } else {
        members_view(members.drop_last()).push(
            (members.last().0@, json_view(members.last().1)),
        )
    }
}

impl View for Json {
    type V = JsonValue;

    open spec fn view(&self) -> JsonValue {
        json_view(*self)
    }
}

/// The value under the first member named `key`.
pub open spec fn lookup(members: Seq<(Seq<char>, JsonValue)>, key: Seq<char>) -> Option<JsonValue>
    decreases members.len(),
{
    if members.len() == 0 {
        None
    } else if members[0].0 == key {
        Some(members[0].1)
    } else {
        lookup(members.drop_first(), key)
    }
}

/// `members` with the first member named `key` given the value `value`, or
/// with a member `key: value` added at the end where there is none.
pub open spec fn set_member(
    members: Seq<(Seq<char>, JsonValue)>,
    key: Seq<char>,
    value: JsonValue,
) -> Seq<(Seq<char>, JsonValue)>
    decreases members.len(),
{
    if members.len() == 0 {
        seq![(key, value)]
    } else if members[0].0 == key {
        members.update(0, (key, value))
    } else {
        seq![members[0]] + set_member(members.drop_first(), key, value)
    }
}

impl JsonValue {
    /// The member `key` of an object (serde_json's `get`).
    pub open spec fn get(self, key: Seq<char>) -> Option<JsonValue> {
        match self {
            JsonValue::Object(members) => lookup(members, key),
            _ => None,
        }
    }

    /// The member `key` of an object, `Null` where there is none (serde_json's `v[key]`).
    pub open spec fn field(self, key: Seq<char>) -> JsonValue {
        match self.get(key) {
            Some(v) => v,
            None => JsonValue::Null,
        }
    }

    /// The item at `i` of an array (serde_json's `get` with an index).
    pub open spec fn item(self, i: int) -> Option<JsonValue> {
        match self {
            JsonValue::Array(items) => if 0 <= i < items.len() {
                Some(items[i])
            } else {
                None
            },
            _ => None,
        }
    }

    /// The item at `i` of an array, `Null` where there is none (serde_json's `v[i]`).
    pub open spec fn at(self, i: int) -> JsonValue {
        match self.item(i) {
            Some(v) => v,
            None => JsonValue::Null,
        }
    }

    pub open spec fn as_str(self) -> Option<Seq<char>> {
        match self {
            JsonValue::Str(s) => Some(s),
            _ => None,
        }
    }

    pub open spec fn as_array(self) -> Option<Seq<JsonValue>> {
        match self {
            JsonValue::Array(items) => Some(items),
            _ => None,
        }
    }
}

/// A string document.
pub open spec fn jstr(s: Seq<char>) -> JsonValue {
    JsonValue::Str(s)
}

pub proof fn lemma_items_view(items: Seq<Json>)
    ensures
        items_view(items).len() == items.len(),
        forall|k: int| 0 <= k < items.len() ==> #[trigger] items_view(items)[k] == json_view(items[k]),
    decreases items.len(),
{
    if items.len() > 0 {
        lemma_items_view(items.drop_last());
    }
}

pub proof fn lemma_members_view(members: Seq<(String, Json)>)
    ensures
        members_view(members).len() == members.len(),
        forall|k: int|
            0 <= k < members.len() ==> #[trigger] members_view(members)[k] == (
                members[k].0@,
                json_view(members[k].1),
            ),
    decreases members.len(),
{
    if members.len() > 0 {
        lemma_members_view(members.drop_last());
    }
}

pub proof fn lemma_members_view_push(members: Seq<(String, Json)>, m: (String, Json))
    ensures
        members_view(members.push(m)) == members_view(members).push((m.0@, json_view(m.1))),
{
    assert(members.push(m).drop_last() =~= members);
}

pub proof fn lemma_items_view_push(items: Seq<Json>, j: Json)
    ensures
        items_view(items.push(j)) == items_view(items).push(json_view(j)),
{
    assert(items.push(j).drop_last() =~= items);
}

/// The first member named `key` is the one looked up.
pub proof fn lemma_lookup_at(members: Seq<(Seq<char>, JsonValue)>, key: Seq<char>, i: int)
    requires
        0 <= i < members.len(),
        members[i].0 == key,
        forall|j: int| 0 <= j < i ==> members[j].0 != key,
    ensures
        lookup(members, key) == Some(members[i].1),
    decreases i,
{
    if i > 0 {
        lemma_lookup_at(members.drop_first(), key, i - 1);
    }
}

/// Looking up in two runs of members finds the first run's member, where it
/// has one, else the second's.
pub proof fn lemma_lookup_append(
    a: Seq<(Seq<char>, JsonValue)>,
    b: Seq<(Seq<char>, JsonValue)>,
    key: Seq<char>,
)
    ensures
        lookup(a + b, key) == match lookup(a, key) {
            Some(v) => Some(v),
            None => lookup(b, key),
        },
    decreases a.len(),
{
    if a.len() == 0 {
        assert(a + b =~= b);
    } else {
        assert((a + b).drop_first() =~= a.drop_first() + b);
        assert((a + b)[0] == a[0]);
        lemma_lookup_append(a.drop_first(), b, key);
    }
}

/// Reading a member back after setting it gives the value set, and leaves
/// every other member as it was.
pub proof fn lemma_set_then_get(
    members: Seq<(Seq<char>, JsonValue)>,
    key: Seq<char>,
    value: JsonValue,
    other: Seq<char>,
)
    ensures
        lookup(set_member(members, key, value), key) == Some(value),
        other != key ==> lookup(set_member(members, key, value), other) == lookup(members, other),
    decreases members.len(),
{
    if members.len() > 0 && members[0].0 != key {
        lemma_set_then_get(members.drop_first(), key, value, other);
        let rest = set_member(members.drop_first(), key, value);
        assert((seq![members[0]] + rest).drop_first() =~= rest);
    } else if members.len() > 0 {
        assert(members.update(0, (key, value)).drop_first() =~= members.drop_first());
    } else {
        assert(seq![(key, value)].drop_first() =~= members);
    }
}

/// Updating the first member named `key` is what `set_member` does.
proof fn lemma_set_member_at(
    members: Seq<(Seq<char>, JsonValue)>,
    key: Seq<char>,
    value: JsonValue,
    i: int,
)
    requires
        0 <= i < members.len(),
        members[i].0 == key,
        forall|j: int| 0 <= j < i ==> members[j].0 != key,
    ensures
        set_member(members, key, value) == members.update(i, (key, value)),
    decreases i,
{
    if i > 0 {
        lemma_set_member_at(members.drop_first(), key, value, i - 1);
        assert(seq![members[0]] + members.drop_first().update(i - 1, (key, value)) =~= members.update(
            i,
            (key, value),
        ));
    }
}

/// Without a member named `key`, `set_member` adds one at the end.
proof fn lemma_set_member_absent(
    members: Seq<(Seq<char>, JsonValue)>,
    key: Seq<char>,
    value: JsonValue,
)
    requires
        forall|j: int| 0 <= j < members.len() ==> members[j].0 != key,
    ensures
        set_member(members, key, value) == members.push((key, value)),
    decreases members.len(),
{
    if members.len() > 0 {
        lemma_set_member_absent(members.drop_first(), key, value);
        assert(seq![members[0]] + members.drop_first().push((key, value)) =~= members.push(
            (key, value),
        ));
    }
}

#[verifier::loop_isolation(false)]
fn clone_json(j: &Json) -> (r: Json)
    ensures
        r@ == j@,
    decreases j,
{
    match j {
        Json::Null => Json::Null,
        Json::Bool(b) => Json::Bool(*b),
        Json::Number(n) => Json::Number(n.clone()),
        Json::Str(s) => Json::Str(s.clone()),
        Json::Array(items) => {
            let mut out: Vec<Json> = Vec::new();
            let mut i: usize = 0;
            while i < items.len()
                invariant
                    i <= items@.len(),
                    items_view(out@) == items_view(items@.take(i as int)),
                decreases items@.len() - i,
            {
                proof {
                    assert(decreases_to!(*j => items@[i as int]));
                }
                let c = clone_json(&items[i]);
                let ghost before = out@;
                out.push(c);
                proof {
                    lemma_items_view_push(before, c);
                    lemma_items_view_push(items@.take(i as int), items@[i as int]);
                    assert(items@.take(i as int).push(items@[i as int]) =~= items@.take(i + 1));
                }
                i = i + 1;
            }
            assert(items@.take(i as int) =~= items@);
            Json::Array(out)
        },
        Json::Object(members) => {
            let mut out: Vec<(String, Json)> = Vec::new();
            let mut i: usize = 0;
            while i < members.len()
                invariant
                    i <= members@.len(),
                    members_view(out@) == members_view(members@.take(i as int)),
                decreases members@.len() - i,
            {
                proof {
                    assert(decreases_to!(*j => members@[i as int].1));
                }
                let key = members[i].0.clone();
                let value = clone_json(&members[i].1);
                let ghost before = out@;
                out.push((key, value));
                proof {
                    lemma_members_view_push(before, (key, value));
                    lemma_members_view_push(members@.take(i as int), members@[i as int]);
                    assert(members@.take(i as int).push(members@[i as int]) =~= members@.take(
                        i + 1,
                    ));
                }
                i = i + 1;
            }
            assert(members@.take(i as int) =~= members@);
            Json::Object(out)
        },
    }
}

impl Clone for Json {
    fn clone(&self) -> (r: Self)
        ensures
            r@ == self@,
    {
        clone_json(self)
    }
}

/// Copies of each document of `items`, in order.
pub fn clone_items(items: &Vec<Json>) -> (r: Vec<Json>)
    ensures
        items_view(r@) == items_view(items@),
{
    let mut out: Vec<Json> = Vec::new();
    let mut i: usize = 0;
    while i < items.len()
        invariant
            i <= items@.len(),
            items_view(out@) == items_view(items@.take(i as int)),
        decreases items@.len() - i,
    {
        let c = items[i].clone();
        let ghost before = out@;
        out.push(c);
        proof {
            lemma_items_view_push(before, c);
            lemma_items_view_push(items@.take(i as int), items@[i as int]);
            assert(items@.take(i as int).push(items@[i as int]) =~= items@.take(i + 1));
        }
        i = i + 1;
    }
    assert(items@.take(i as int) =~= items@);
    out
}

/// The string document holding `s`.
pub fn json_string(s: &str) -> (r: Json)
    ensures
        r@ == jstr(s@),
{
    Json::Str(String::from_str(s))
}

/// The member `key: value`.
pub fn member(key: &str, value: Json) -> (r: (String, Json))
    ensures
        r.0@ == key@,
        r.1@ == value@,
{
    (String::from_str(key), value)
}

/// The object with the members `members`, in order.
pub fn object_of(members: Vec<(String, Json)>) -> (r: Json)
    ensures
        r@ == JsonValue::Object(members_view(members@)),
{
    Json::Object(members)
}

/// The object `{k1: v1}`.
pub fn obj1(k1: &str, v1: Json) -> (r: Json)
    ensures
        r@ == JsonValue::Object(seq![(k1@, v1@)]),
{
    let members = vec![member(k1, v1)];
    proof {
        lemma_members_view(members@);
        assert(members_view(members@) =~= seq![(k1@, v1@)]);
    }
    Json::Object(members)
}

/// The object `{k1: v1, k2: v2}`.
pub fn obj2(k1: &str, v1: Json, k2: &str, v2: Json) -> (r: Json)
    ensures
        r@ == JsonValue::Object(seq![(k1@, v1@), (k2@, v2@)]),
{
    let members = vec![member(k1, v1), member(k2, v2)];
    proof {
        lemma_members_view(members@);
        assert(members_view(members@) =~= seq![(k1@, v1@), (k2@, v2@)]);
    }
    Json::Object(members)
}

/// The object `{k1: v1, k2: v2, k3: v3}`.
pub fn obj3(k1: &str, v1: Json, k2: &str, v2: Json, k3: &str, v3: Json) -> (r: Json)
    ensures
        r@ == JsonValue::Object(seq![(k1@, v1@), (k2@, v2@), (k3@, v3@)]),
{
    let members = vec![member(k1, v1), member(k2, v2), member(k3, v3)];
    proof {
        lemma_members_view(members@);
        assert(members_view(members@) =~= seq![(k1@, v1@), (k2@, v2@), (k3@, v3@)]);
    }
    Json::Object(members)
}

/// The object `{k1: v1, k2: v2, k3: v3, k4: v4}`.
pub fn obj4(k1: &str, v1: Json, k2: &str, v2: Json, k3: &str, v3: Json, k4: &str, v4: Json) -> (r:
    Json)
    ensures
        r@ == JsonValue::Object(seq![(k1@, v1@), (k2@, v2@), (k3@, v3@), (k4@, v4@)]),
{
    let members = vec![member(k1, v1), member(k2, v2), member(k3, v3), member(k4, v4)];
    proof {
        lemma_members_view(members@);
        assert(members_view(members@) =~= seq![(k1@, v1@), (k2@, v2@), (k3@, v3@), (k4@, v4@)]);
    }
    Json::Object(members)
}

/// The array of `items`, in order.
pub fn array_of(items: Vec<Json>) -> (r: Json)
    ensures
        r@ == JsonValue::Array(items_view(items@)),
{
    Json::Array(items)
}

impl Json {
    /// The member `key` of an object; `None` for other documents.
    #[verifier::loop_isolation(false)]
    pub fn get(&self, key: &str) -> (r: Option<&Json>)
        ensures
            match r {
                Some(v) => self@.get(key@) == Some(v@),
                None => self@.get(key@) is None,
            },
    {
        match self {
            Json::Object(members) => {
                let k = String::from_str(key);
                let ghost mv = members_view(members@);
                proof {
                    lemma_members_view(members@);
                    assert(mv.skip(0) =~= mv);
                }
                let mut i: usize = 0;
                while i < members.len()
                    invariant
                        i <= members@.len(),
                        mv == members_view(members@),
                        mv.len() == members@.len(),
                        forall|k: int|
                            0 <= k < members@.len() ==> #[trigger] mv[k] == (
                                members@[k].0@,
                                json_view(members@[k].1),
                            ),
                        lookup(mv, key@) == lookup(mv.skip(i as int), key@),
                        k@ == key@,
                    decreases members@.len() - i,
                {
                    if members[i].0 == k {
                        assert(mv.skip(i as int)[0] == mv[i as int]);
                        assert(mv[i as int].0 == key@);
                        assert(lookup(mv.skip(i as int), key@) == Some(mv[i as int].1));
                        return Some(&members[i].1);
                    }
                    assert(mv.skip(i as int).drop_first() =~= mv.skip(i + 1));
                    i = i + 1;
                }
                None
            },
            _ => None,
        }
    }

    /// The item at `i` of an array; `None` for other documents and out of range.
    pub fn at(&self, i: usize) -> (r: Option<&Json>)
        ensures
            match r {
                Some(v) => self@.item(i as int) == Some(v@),
                None => self@.item(i as int) is None,
            },
    {
        match self {
            Json::Array(items) => {
                proof {
                    lemma_items_view(items@);
                }
                if i < items.len() {
                    Some(&items[i])
                } else {
                    None
                }
            },
            _ => None,
        }
    }

    pub fn as_str(&self) -> (r: Option<&str>)
        ensures
            match r {
                Some(s) => self@.as_str() == Some(s@),
                None => self@.as_str() is None,
            },
    {
        match self {
            Json::Str(s) => Some(s.as_str()),
            _ => None,
        }
    }

    pub fn as_array(&self) -> (r: Option<&Vec<Json>>)
        ensures
            match r {
                Some(items) => self@.as_array() == Some(items_view(items@)),
                None => self@.as_array() is None,
            },
    {
        match self {
            Json::Array(items) => Some(items),
            _ => None,
        }
    }

    pub fn is_null(&self) -> (r: bool)
        ensures
            r == (self@ == JsonValue::Null),
    {
        match self {
            Json::Null => true,
            _ => false,
        }
    }

    /// Gives the member `key` of an object the value `value`, replacing the
    /// first member of that name or adding one at the end. Other documents
    /// are left as they are.
    #[verifier::loop_isolation(false)]
    pub fn set(&mut self, key: &str, value: Json)
        ensures
            match old(self)@ {
                JsonValue::Object(members) => final(self)@ == JsonValue::Object(
                    set_member(members, key@, value@),
                ),
                _ => final(self)@ == old(self)@,
            },
    {
        match self {
            Json::Object(members) => {
                let k = String::from_str(key);
                let ghost mv = members_view(members@);
                proof {
                    lemma_members_view(members@);
                }
                let mut i: usize = 0;
                while i < members.len()
                    invariant
                        i <= members@.len(),
                        mv == members_view(members@),
                        mv.len() == members@.len(),
                        forall|k: int|
                            0 <= k < members@.len() ==> #[trigger] mv[k] == (
                                members@[k].0@,
                                json_view(members@[k].1),
                            ),
                        forall|j: int| 0 <= j < i ==> mv[j].0 != key@,
                        k@ == key@,
                    decreases members@.len() - i,
                {
                    if members[i].0 == k {
                        let ghost before = members@;
                        members.set(i, (k, value));
                        proof {
                            lemma_set_member_at(mv, key@, value@, i as int);
                            lemma_members_view(members@);
                            assert(members_view(members@) =~= mv.update(
                                i as int,
                                (key@, value@),
                            ));
                            assert(members_view(members@) == set_member(mv, key@, value@));
                        }
                        return ;
                    }
                    i = i + 1;
                }
                let ghost before = members@;
                members.push((k, value));
                proof {
                    lemma_set_member_absent(mv, key@, value@);
                    lemma_members_view_push(before, (k, value));
                }
            },
            _ => {},
        }
    }

    /// Reads `text` as a JSON document.
    pub fn parse(text: &str) -> (r: Result<Json, BotError>)
        ensures
            match r {
                Ok(v) => parsed_json(text@) == Some(v@),
                Err(e) => parsed_json(text@) is None && e is Json,
            },
    {
        match serde_parse(text) {
            Ok(v) => Ok(v),
            Err(e) => Err(BotError::Json(e)),
        }
    }

    /// The compact JSON text of the document.
    pub fn to_text(&self) -> (r: Result<String, BotError>)
        ensures
            match r {
                Ok(s) => json_text(self@) == Some(s@),
                Err(e) => json_text(self@) is None && e is Json,
            },
    {
        match serde_text(self) {
            Ok(s) => Ok(s),
            Err(e) => Err(BotError::Json(e)),
        }
    }
}

#[verifier::external_type_specification]
#[verifier::external_body]
pub struct ExSerdeValue(serde_json::Value);

#[verifier::external_type_specification]
#[verifier::external_body]
pub struct ExSerdeError(serde_json::Error);

/// The document that serde_json reads from `text`; `None` where it refuses the text.
pub uninterp spec fn parsed_json(text: Seq<char>) -> Option<JsonValue>;

/// The compact text that serde_json writes for a document; `None` where it
/// refuses the document (a number whose text is no JSON number).
pub uninterp spec fn json_text(value: JsonValue) -> Option<Seq<char>>;

/// Converts serde_json's document into ours, member for member; a number
/// keeps the text serde_json writes for it.
#[verifier::external_body]
fn from_serde(value: serde_json::Value) -> Json {
    match value {
        serde_json::Value::Null => Json::Null,
        serde_json::Value::Bool(b) => Json::Bool(b),
        serde_json::Value::Number(n) => Json::Number(n.to_string()),
        serde_json::Value::String(s) => Json::Str(s),
        serde_json::Value::Array(items) => Json::Array(items.into_iter().map(from_serde).collect()),
        serde_json::Value::Object(m) => Json::Object(
            m.into_iter().map(|(k, v)| (k, from_serde(v))).collect(),
        ),
    }
}

/// Converts our document into serde_json's, member for member; fails where
/// a number's text is no JSON number.
#[verifier::external_body]
fn to_serde(value: &Json) -> Result<serde_json::Value, serde_json::Error> {
    Ok(
        match value {
            Json::Null => serde_json::Value::Null,
            Json::Bool(b) => serde_json::Value::Bool(*b),
            Json::Number(n) => serde_json::Value::Number(n.parse::<serde_json::Number>()?),
            Json::Str(s) => serde_json::Value::String(s.clone()),
            Json::Array(items) => serde_json::Value::Array(
                items.iter().map(to_serde).collect::<Result<Vec<_>, _>>()?,
            ),
            Json::Object(m) => serde_json::Value::Object(
                m.iter().map(|(k, v)| to_serde(v).map(|v| (k.clone(), v))).collect::<Result<_, _>>()?,
            ),
        },
    )
}

/// `serde_json::from_str` into a `serde_json::Value`: the contract claims that
/// the document read is `parsed_json` of the text, and that it fails exactly
/// where `parsed_json` is `None`.
#[verifier::external_body]
fn serde_parse(text: &str) -> (r: Result<Json, serde_json::Error>)
    ensures
        match r {
            Ok(v) => parsed_json(text@) == Some(v@),
            Err(_) => parsed_json(text@) is None,
        },
{
    serde_json::from_str::<serde_json::Value>(text).map(from_serde)
}

/// `serde_json::to_string` of the document: the contract claims that the text
/// is `json_text` of the document, and that it fails exactly where
/// `json_text` is `None`.
#[verifier::external_body]
fn serde_text(value: &Json) -> (r: Result<String, serde_json::Error>)
    ensures
        match r {
            Ok(s) => json_text(value@) == Some(s@),
            Err(_) => json_text(value@) is None,
        },
{
    to_serde(value).and_then(|v| serde_json::to_string(&v))
}

/// The text serde_json gives for one of its errors (its `Display`); nothing
/// is claimed of the text.
#[verifier::external_body]
pub(crate) fn serde_error_text(e: &serde_json::Error) -> String {
    e.to_string()
}

} // verus!
