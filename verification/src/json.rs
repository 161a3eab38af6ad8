//! JSON values: the mathematical model, the data type that the logic reads, the
//! parser that fills it, and the serializer that writes it.

use crate::named;
use crate::named::Named;
use crate::text;
use vstd::prelude::*;

verus! {

/// What a JSON text says. An object is the sequence of its members.
pub enum Json {
    Null,
    Bool(bool),
    Unsigned(u64),
    Negative(i64),
    Float(Seq<char>),
    Text(Seq<char>),
    Array(Seq<Json>),
    Object(Seq<(Seq<char>, Json)>),
}

/// A JSON value. A number is an unsigned integer, a negative integer, or, where
/// it is neither, its decimal text.
#[derive(Debug)]
pub enum JsonValue {
    Null,
    Bool(bool),
    Unsigned(u64),
    Negative(i64),
    Float(String),
    Text(String),
    Array(Vec<JsonValue>),
    Object(Vec<JsonMember>),
}

/// One member of a JSON object.
#[derive(Debug)]
pub struct JsonMember {
    pub key: String,
    pub value: JsonValue,
}

impl JsonValue {
    pub open spec fn view(&self) -> Json
        decreases self,
    {
        match self {
            JsonValue::Null => Json::Null,
            JsonValue::Bool(b) => Json::Bool(*b),
            JsonValue::Unsigned(n) => Json::Unsigned(*n),
            JsonValue::Negative(n) => Json::Negative(*n),
            JsonValue::Float(s) => Json::Float(s@),
            JsonValue::Text(s) => Json::Text(s@),
            JsonValue::Array(items) => Json::Array(
                Seq::new(
                    items@.len(),
                    |i: int|
                        if 0 <= i < items@.len() {
                            items@[i].view()
                        } else {
                            Json::Null
                        },
                ),
            ),
            JsonValue::Object(members) => Json::Object(
                Seq::new(
                    members@.len(),
                    |i: int|
                        if 0 <= i < members@.len() {
                            (members@[i].key@, members@[i].value.view())
                        } else {
                            (Seq::empty(), Json::Null)
                        },
                ),
            ),
        }
    }
}

/// The model of a list of members.
pub open spec fn members_view(members: Seq<JsonMember>) -> Seq<(Seq<char>, Json)> {
    Seq::new(members.len(), |i: int| (members[i].key@, members[i].value@))
}

/// The member of this key and value.
pub fn member_of(key: &str, value: JsonValue) -> (r: JsonMember)
    ensures
        r.key@ == key@,
        r.value@ == value@,
{
    JsonMember { key: key.to_owned(), value }
}

impl Named for JsonMember {
    type Model = Json;

    open spec fn entry(&self) -> (Seq<char>, Json) {
        (self.key@, self.value@)
    }

    fn name(&self) -> (r: &str) {
        self.key.as_str()
    }
}

/// The value of the first member with the key.
pub open spec fn member(members: Seq<(Seq<char>, Json)>, key: Seq<char>) -> Option<Json>
    decreases members.len(),
{
    if members.len() == 0 {
        None
    } else if members[0].0 == key {
        Some(members[0].1)
    } else {
        member(members.drop_first(), key)
    }
}

/// The member of an object with the key; nothing where the value is no object.
pub open spec fn json_get(v: Json, key: Seq<char>) -> Option<Json> {
    match v {
        Json::Object(members) => member(members, key),
        _ => None,
    }
}

/// The characters of a JSON string; nothing where the value is no string.
pub open spec fn json_text(v: Json) -> Option<Seq<char>> {
    match v {
        Json::Text(s) => Some(s),
        _ => None,
    }
}

/// The characters of the member with the key, where it is there and a string.
pub open spec fn json_text_member(v: Json, key: Seq<char>) -> Option<Seq<char>> {
    match json_get(v, key) {
        Some(found) => json_text(found),
        None => None,
    }
}

/// A number as a signed integer, where it is one that fits.
pub open spec fn json_i64(v: Json) -> Option<i64> {
    match v {
        Json::Unsigned(n) => if n <= i64::MAX {
            Some(n as i64)
        } else {
            None
        },
        Json::Negative(n) => Some(n),
        _ => None,
    }
}

pub proof fn lemma_object_view(members: Vec<JsonMember>)
    ensures
        JsonValue::Object(members)@ == Json::Object(members_view(members@)),
{
    let v = JsonValue::Object(members);
    assert(v@->Object_0 =~= members_view(members@));
}

pub proof fn lemma_array_view(items: Vec<JsonValue>)
    ensures
        JsonValue::Array(items)@ == Json::Array(Seq::new(items@.len(), |i: int| items@[i]@)),
{
    let v = JsonValue::Array(items);
    assert(v@->Array_0 =~= Seq::new(items@.len(), |i: int| items@[i]@));
}

/// The value of the first member with the key.
pub fn find_member<'a>(members: &'a Vec<JsonMember>, key: &str) -> (r: Option<&'a JsonValue>)
    ensures
        match r {
            Some(v) => member(members_view(members@), key@) == Some(v@),
            None => member(members_view(members@), key@) is None,
        },
{
    let ghost all = members_view(members@);
    let mut i: usize = 0;
    assert(all.skip(0) =~= all);
    while i < members.len()
        invariant
            i <= members.len(),
            all == members_view(members@),
            member(all, key@) == member(all.skip(i as int), key@),
        decreases members.len() - i,
    {
        assert(all.skip(i as int)[0] == all[i as int]);
        assert(all.skip(i as int).drop_first() =~= all.skip(i + 1));
        if text::same_text(members[i].key.as_str(), key) {
            return Some(&members[i].value);
        }
        i += 1;
    }
    None
}

/// Copies each item.
pub fn copy_items(items: &Vec<JsonValue>) -> (r: Vec<JsonValue>)
    ensures
        r.len() == items.len(),
        forall|k: int| 0 <= k < items.len() ==> (#[trigger] r@[k])@ == items@[k]@,
    decreases items,
{
    let mut out: Vec<JsonValue> = Vec::new();
    let mut i: usize = 0;
    while i < items.len()
        invariant
            i <= items.len(),
            out.len() == i,
            forall|k: int| 0 <= k < i ==> (#[trigger] out@[k])@ == items@[k]@,
        decreases items.len() - i,
    {
        out.push(items[i].copy());
        i += 1;
    }
    out
}

/// Copies each member.
pub fn copy_members(members: &Vec<JsonMember>) -> (r: Vec<JsonMember>)
    ensures
        members_view(r@) == members_view(members@),
    decreases members,
{
    let mut out: Vec<JsonMember> = Vec::new();
    let mut i: usize = 0;
    while i < members.len()
        invariant
            i <= members.len(),
            out.len() == i,
            forall|k: int| 0 <= k < i ==> (#[trigger] out@[k]).key@ == members@[k].key@,
            forall|k: int| 0 <= k < i ==> (#[trigger] out@[k]).value@ == members@[k].value@,
        decreases members.len() - i,
    {
        let value = members[i].value.copy();
        out.push(JsonMember { key: members[i].key.clone(), value });
        i += 1;
    }
    assert(members_view(out@) =~= members_view(members@));
    out
}

impl JsonValue {
    /// A value with the same content.
    pub fn copy(&self) -> (r: JsonValue)
        ensures
            r@ == self@,
        decreases self,
    {
        match self {
            JsonValue::Null => JsonValue::Null,
            JsonValue::Bool(b) => JsonValue::Bool(*b),
            JsonValue::Unsigned(n) => JsonValue::Unsigned(*n),
            JsonValue::Negative(n) => JsonValue::Negative(*n),
            JsonValue::Float(s) => JsonValue::Float(s.clone()),
            JsonValue::Text(s) => JsonValue::Text(s.clone()),
            JsonValue::Array(items) => {
                let out = copy_items(items);
                proof {
                    lemma_array_view(out);
                    lemma_array_view(*items);
                    assert(Seq::new(out@.len(), |i: int| out@[i]@) =~= Seq::new(
                        items@.len(),
                        |i: int| items@[i]@,
                    ));
                }
                JsonValue::Array(out)
            },
            JsonValue::Object(members) => {
                let out = copy_members(members);
                proof {
                    lemma_object_view(out);
                    lemma_object_view(*members);
                }
                JsonValue::Object(out)
            },
        }
    }

    /// The member of an object with the key.
    pub fn get(&self, key: &str) -> (r: Option<&JsonValue>)
        ensures
            match r {
                Some(v) => json_get(self@, key@) == Some(v@),
                None => json_get(self@, key@) is None,
            },
    {
        match self {
            JsonValue::Object(members) => {
                proof {
                    lemma_object_view(*members);
                }
                find_member(members, key)
            },
            _ => None,
        }
    }

    /// The text of a JSON string.
    pub fn as_str(&self) -> (r: Option<&str>)
        ensures
            match r {
                Some(s) => json_text(self@) == Some(s@),
                None => json_text(self@) is None,
            },
    {
        match self {
            JsonValue::Text(s) => Some(s.as_str()),
            _ => None,
        }
    }

    /// A number as a signed integer.
    pub fn as_i64(&self) -> (r: Option<i64>)
        ensures
            r == json_i64(self@),
    {
        match self {
            JsonValue::Unsigned(n) => if *n <= i64::MAX as u64 {
                Some(*n as i64)
            } else {
                None
            },
            JsonValue::Negative(n) => Some(*n),
            _ => None,
        }
    }

    /// The text of the member with the key, where it is a string.
    pub fn text_member(&self, key: &str) -> (r: Option<&str>)
        ensures
            match r {
                Some(s) => json_text_member(self@, key@) == Some(s@),
                None => json_text_member(self@, key@) is None,
            },
    {
        match self.get(key) {
            Some(v) => v.as_str(),
            None => None,
        }
    }
}

/// `serde_json::Value`: a parsed JSON document.
#[verifier::external_type_specification]
#[verifier::external_body]
pub struct ExSerdeValue(serde_json::Value);

/// Names what a `serde_json::Value` holds.
pub uninterp spec fn json_tree(value: serde_json::Value) -> Json;

/// Names what `serde_json::from_slice` makes of a byte sequence: the document
/// that it holds, or the text of the error.
pub uninterp spec fn json_parsed(bytes: Seq<u8>) -> Result<Json, Seq<char>>;

/// `serde_json::from_slice` into a `serde_json::Value`: the document in the
/// bytes, or the error's text.
#[verifier::external_body]
fn value_from_slice(bytes: &[u8]) -> (r: Result<serde_json::Value, String>)
    ensures
        match r {
            Ok(value) => json_parsed(bytes@) == Ok::<Json, Seq<char>>(json_tree(value)),
            Err(e) => json_parsed(bytes@) == Err::<Json, Seq<char>>(e@),
        },
{
    serde_json::from_slice::<serde_json::Value>(bytes).map_err(|e| e.to_string())
}

/// The variants of `serde_json::Value`, one for one: a number by
/// `Number::as_u64`, else by `Number::as_i64`, else by its text; the members of
/// an object in the order in which its map hands them out.
#[verifier::external_body]
fn value_content(value: serde_json::Value) -> (r: JsonValue)
    ensures
        r@ == json_tree(value),
{
    match value {
        serde_json::Value::Null => JsonValue::Null,
        serde_json::Value::Bool(b) => JsonValue::Bool(b),
        serde_json::Value::Number(n) => match (n.as_u64(), n.as_i64()) {
            (Some(u), _) => JsonValue::Unsigned(u),
            (None, Some(i)) => JsonValue::Negative(i),
            (None, None) => JsonValue::Float(n.to_string()),
        },
        serde_json::Value::String(s) => JsonValue::Text(s),
        serde_json::Value::Array(a) => JsonValue::Array(a.into_iter().map(value_content).collect()),
        serde_json::Value::Object(o) => JsonValue::Object(
            o.into_iter().map(|(key, v)| JsonMember { key, value: value_content(v) }).collect(),
        ),
    }
}

/// Names what a document is once `serde_json::Value` holds it.
pub uninterp spec fn json_held(document: Json) -> Json;

/// The tree holds the document: the same value, but that an integer is negative
/// only below zero, that a number which is no integer may have another text or be
/// null, and that the members of an object stand in another order, each key once
/// and with the last value that it has in the document.
pub open spec fn holds(tree: Json, document: Json) -> bool
    decreases document,
{
    match document {
        Json::Negative(n) => if n < 0 {
            tree == document
        } else {
            tree == Json::Unsigned(n as u64)
        },
        Json::Float(_) => tree is Float || tree is Null,
        Json::Array(items) => {
            &&& tree is Array
            &&& tree->Array_0.len() == items.len()
            &&& forall|i: int|
                0 <= i < items.len() ==> holds(#[trigger] tree->Array_0[i], items[i])
        },
        Json::Object(members) => {
            &&& tree is Object
            &&& named::names_once(tree->Object_0)
            &&& forall|i: int|
                0 <= i < members.len() ==> has_key(tree->Object_0, (#[trigger] members[i]).0)
            &&& forall|j: int|
                0 <= j < tree->Object_0.len() ==> exists|i: int|
                    0 <= i < members.len() && (#[trigger] members[i]).0 == (
                    #[trigger] tree->Object_0[j]).0 && key_ends(members, i) && holds(
                        tree->Object_0[j].1,
                        members[i].1,
                    )
        },
        _ => tree == document,
    }
}

/// No member behind this one has its key.
pub open spec fn key_ends(members: Seq<(Seq<char>, Json)>, i: int) -> bool {
    forall|k: int| i < k < members.len() ==> (#[trigger] members[k]).0 != members[i].0
}

/// A member has the key.
pub open spec fn has_key(members: Seq<(Seq<char>, Json)>, key: Seq<char>) -> bool {
    exists|j: int| 0 <= j < members.len() && (#[trigger] members[j]).0 == key
}

/// `serde_json::Value` with this content, variant by variant: an integer by
/// `Value::from`, which makes one that is not below zero unsigned; any other
/// number by `Number::from_f64` of its text, null where that is no finite number;
/// the members of an object one after the other by `Map::insert`, which leaves each
/// key in the map once, with the value that it was given last.
#[verifier::external_body]
fn content_value(v: &JsonValue) -> (r: serde_json::Value)
    ensures
        json_tree(r) == json_held(v@),
        holds(json_tree(r), v@),
{
    match v {
        JsonValue::Null => serde_json::Value::Null,
        JsonValue::Bool(b) => serde_json::Value::Bool(*b),
        JsonValue::Unsigned(n) => serde_json::Value::from(*n),
        JsonValue::Negative(n) => serde_json::Value::from(*n),
        JsonValue::Float(s) => s.parse().ok().and_then(serde_json::Number::from_f64).into(),
        JsonValue::Text(s) => s.clone().into(),
        JsonValue::Array(a) => serde_json::Value::Array(a.iter().map(content_value).collect()),
        JsonValue::Object(o) => o.iter().fold(serde_json::Map::new(), |mut map, m| {
            map.insert(m.key.clone(), content_value(&m.value));
            map
        }).into(),
    }
}

/// Names what `serde_json::to_vec` makes of a document: its bytes, or the text of
/// the error.
pub uninterp spec fn json_serialized(document: Json) -> Result<Seq<u8>, Seq<char>>;

/// Neither a newline nor a carriage return is among the bytes.
pub open spec fn is_one_line(bytes: Seq<u8>) -> bool {
    forall|i: int| 0 <= i < bytes.len() ==> #[trigger] bytes[i] != 10 && bytes[i] != 13
}

/// No number in the document needs a fraction or an exponent, it nests no deeper
/// than the bound, and no key is the one that `serde_json` keeps for raw values.
pub open spec fn is_plain(document: Json, depth: nat) -> bool
    decreases document,
{
    match document {
        Json::Float(_) => false,
        Json::Array(items) => {
            &&& depth > 0
            &&& forall|i: int|
                0 <= i < items.len() ==> is_plain(#[trigger] items[i], (depth - 1) as nat)
        },
        Json::Object(members) => {
            &&& depth > 0
            &&& forall|i: int|
                0 <= i < members.len() ==> (#[trigger] members[i]).0
                    != "$serde_json::private::RawValue"@ && is_plain(
                    members[i].1,
                    (depth - 1) as nat,
                )
        },
        _ => true,
    }
}

/// The document is one that `serde_json::from_slice` reads back from its bytes: it
/// is plain, and nests no deeper than the 127 levels that the parser enters.
pub open spec fn reads_back(document: Json) -> bool {
    is_plain(document, 127)
}

/// `serde_json::to_vec` on a `serde_json::Value`: the document's bytes, or the
/// error's text. The compact form puts no whitespace between tokens and escapes
/// control characters in texts, so that the bytes hold no line break. From the
/// bytes `serde_json::from_slice` gives the document back, where it is one that
/// reads back; nothing is claimed of other documents, of which a float may be
/// rounded and too deep a nesting is refused.
#[verifier::external_body]
fn value_to_vec(value: &serde_json::Value) -> (r: Result<Vec<u8>, String>)
    ensures
        match r {
            Ok(bytes) => json_serialized(json_tree(*value)) == Ok::<Seq<u8>, Seq<char>>(bytes@),
            Err(e) => json_serialized(json_tree(*value)) == Err::<Seq<u8>, Seq<char>>(e@),
        },
        r matches Ok(bytes) ==> is_one_line(bytes@),
        r matches Ok(bytes) ==> (reads_back(json_tree(*value)) ==> json_parsed(bytes@)
            == Ok::<Json, Seq<char>>(json_tree(*value))),
{
    serde_json::to_vec(value).map_err(|e| e.to_string())
}

/// Names what `serde_json::Serializer` makes of members that it is handed one by
/// one: the object's bytes, or the text of the error.
pub uninterp spec fn json_recorded(members: Seq<(Seq<char>, Json)>) -> Result<Seq<u8>, Seq<char>>;

/// `Serializer::collect_map` on a compact `serde_json::Serializer`: the bytes of
/// the object with these members, in their order, or the error's text. As from
/// `serde_json::to_vec`, the bytes hold no line break, and where the object reads
/// back, `serde_json::from_slice` gives a tree that holds it.
#[verifier::external_body]
pub(crate) fn write_record(members: &Vec<JsonMember>) -> (r: Result<Vec<u8>, String>)
    ensures
        match r {
            Ok(bytes) => json_recorded(members_view(members@)) == Ok::<Seq<u8>, Seq<char>>(bytes@),
            Err(e) => json_recorded(members_view(members@)) == Err::<Seq<u8>, Seq<char>>(e@),
        },
        r matches Ok(bytes) ==> is_one_line(bytes@),
        r matches Ok(bytes) ==> (reads_back(Json::Object(members_view(members@)))
            ==> parses_to(bytes@, Json::Object(members_view(members@)))),
{
    let mut out: Vec<u8> = Vec::new();
    let mut serializer = serde_json::Serializer::new(&mut out);
    let pairs = members.iter().map(|m| (m.key.as_str(), content_value(&m.value)));
    match serde::Serializer::collect_map(&mut serializer, pairs) {
        Ok(()) => Ok(out),
        Err(e) => Err(e.to_string()),
    }
}

/// The bytes are read as a tree that holds the document.
pub open spec fn parses_to(bytes: Seq<u8>, document: Json) -> bool {
    json_parsed(bytes) matches Ok(tree) && holds(tree, document)
}

/// What holds a plain document is plain.
proof fn lemma_held_is_plain(tree: Json, document: Json, depth: nat)
    requires
        holds(tree, document),
        is_plain(document, depth),
    ensures
        is_plain(tree, depth),
    decreases document,
{
    match document {
        Json::Array(items) => {
            let held = tree->Array_0;
            assert forall|i: int| 0 <= i < held.len() implies is_plain(
                #[trigger] held[i],
                (depth - 1) as nat,
            ) by {
                assert(is_plain(items[i], (depth - 1) as nat));
                lemma_held_is_plain(held[i], items[i], (depth - 1) as nat);
            }
        },
        Json::Object(members) => {
            let held = tree->Object_0;
            assert forall|j: int| 0 <= j < held.len() implies (#[trigger] held[j]).0
                != "$serde_json::private::RawValue"@ && is_plain(
                held[j].1,
                (depth - 1) as nat,
            ) by {
                let i = choose|i: int|
                    0 <= i < members.len() && (#[trigger] members[i]).0 == held[j].0 && holds(
                        held[j].1,
                        members[i].1,
                    );
                lemma_held_is_plain(held[j].1, members[i].1, (depth - 1) as nat);
            }
        },
        _ => {},
    }
}

proof fn lemma_key_found(members: Seq<(Seq<char>, Json)>, i: int)
    requires
        named::names_once(members),
        0 <= i < members.len(),
    ensures
        member(members, members[i].0) == Some(members[i].1),
    decreases members.len(),
{
    if i > 0 {
        let rest = members.drop_first();
        assert(members[0].0 != members[i].0);
        assert(rest[i - 1] == members[i]);
        assert(named::names_once(rest)) by {
            assert forall|a: int, b: int| 0 <= a < b < rest.len() implies (#[trigger] rest[a]).0
                != (#[trigger] rest[b]).0 by {
                assert(members[a + 1].0 != members[b + 1].0);
            }
        }
        lemma_key_found(rest, i - 1);
    }
}

pub proof fn lemma_member_stands(members: Seq<(Seq<char>, Json)>, key: Seq<char>)
    ensures
        member(members, key) is Some <==> has_key(members, key),
    decreases members.len(),
{
    if members.len() > 0 {
        let rest = members.drop_first();
        lemma_member_stands(rest, key);
        if members[0].0 == key {
            assert(has_key(members, key));
        } else {
            if has_key(rest, key) {
                let j = choose|j: int| 0 <= j < rest.len() && (#[trigger] rest[j]).0 == key;
                assert(members[j + 1].0 == key);
            }
            if has_key(members, key) {
                let j = choose|j: int| 0 <= j < members.len() && (#[trigger] members[j]).0 == key;
                assert(rest[j - 1].0 == key);
            }
        }
    }
}

/// One field holds the other: neither is there, or both are and one holds the
/// other.
pub open spec fn holds_field(field: Option<Json>, given: Option<Json>) -> bool {
    match given {
        Some(document) => field matches Some(tree) && holds(tree, document),
        None => field is None,
    }
}

/// Where no key stands twice in an object, each key is found in what holds the
/// object just where it is found in the object, and with what holds its value.
pub proof fn law_members_are_held(
    held: Seq<(Seq<char>, Json)>,
    members: Seq<(Seq<char>, Json)>,
    key: Seq<char>,
)
    requires
        holds(Json::Object(held), Json::Object(members)),
        named::names_once(members),
    ensures
        holds_field(member(held, key), member(members, key)),
{
    lemma_member_stands(held, key);
    lemma_member_stands(members, key);
    if has_key(members, key) {
        let k = choose|k: int| 0 <= k < members.len() && (#[trigger] members[k]).0 == key;
        assert(has_key(held, members[k].0));
    }
    if has_key(held, key) {
        let j = choose|j: int| 0 <= j < held.len() && (#[trigger] held[j]).0 == key;
        let i = choose|i: int|
            0 <= i < members.len() && (#[trigger] members[i]).0 == held[j].0 && holds(
                held[j].1,
                members[i].1,
            );
        assert(has_key(members, key));
        lemma_key_found(held, j);
        lemma_key_found(members, i);
    }
}

/// The bytes that a document is written as, or why it is not.
pub open spec fn json_written(document: Json) -> Result<Seq<u8>, Seq<char>> {
    json_serialized(json_held(document))
}

/// Writes a JSON document, in one line, from which it is read back.
pub fn write_json(v: &JsonValue) -> (r: Result<Vec<u8>, String>)
    ensures
        match r {
            Ok(bytes) => json_written(v@) == Ok::<Seq<u8>, Seq<char>>(bytes@) && is_one_line(bytes@),
            Err(e) => json_written(v@) == Err::<Seq<u8>, Seq<char>>(e@),
        },
        holds(json_held(v@), v@),
        r matches Ok(bytes) ==> (reads_back(v@) ==> json_parsed(bytes@) == Ok::<Json, Seq<char>>(
            json_held(v@),
        ) && parses_to(bytes@, v@)),
{
    let value = content_value(v);
    proof {
        if reads_back(v@) {
            lemma_held_is_plain(json_tree(value), v@, 127);
        }
    }
    value_to_vec(&value)
}

/// Parses a JSON document.
pub fn parse_json(bytes: &[u8]) -> (r: Result<JsonValue, String>)
    ensures
        match r {
            Ok(value) => json_parsed(bytes@) == Ok::<Json, Seq<char>>(value@),
            Err(e) => json_parsed(bytes@) == Err::<Json, Seq<char>>(e@),
        },
{
    match value_from_slice(bytes) {
        Ok(value) => Ok(value_content(value)),
        Err(e) => Err(e),
    }
}

/// The value under a key is that of the first member with the key.
pub proof fn law_first_member_is_found(members: Seq<(Seq<char>, Json)>, i: int)
    requires
        0 <= i < members.len(),
        forall|j: int| 0 <= j < i ==> (#[trigger] members[j]).0 != members[i].0,
    ensures
        member(members, members[i].0) == Some(members[i].1),
        json_get(Json::Object(members), members[i].0) == Some(members[i].1),
    decreases members.len(),
{
    if i > 0 {
        assert(members[0].0 != members[i].0);
        let rest = members.drop_first();
        assert(rest[i - 1] == members[i]);
        assert forall|j: int| 0 <= j < i - 1 implies (#[trigger] rest[j]).0 != rest[i - 1].0 by {
            assert(members[j + 1].0 != members[i].0);
        }
        law_first_member_is_found(rest, i - 1);
    }
}

/// Nothing stands under a key that no member has, nor in a value that is no object.
pub proof fn law_missing_member_is_not_found(v: Json, key: Seq<char>)
    ensures
        v is Object && (forall|j: int|
            0 <= j < v->Object_0.len() ==> (#[trigger] v->Object_0[j]).0 != key) ==> json_get(
            v,
            key,
        ) is None,
        !(v is Object) ==> json_get(v, key) is None,
        json_get(v, key) is Some ==> v is Object && exists|j: int|
            0 <= j < v->Object_0.len() && (#[trigger] v->Object_0[j]).0 == key && json_get(v, key)
                == Some(v->Object_0[j].1),
{
    if let Json::Object(members) = v {
        lemma_member_stands(members, key);
        lemma_found_member_stands(members, key);
    }
}

proof fn lemma_found_member_stands(members: Seq<(Seq<char>, Json)>, key: Seq<char>)
    ensures
        member(members, key) is Some ==> exists|j: int|
            0 <= j < members.len() && (#[trigger] members[j]).0 == key && member(members, key)
                == Some(members[j].1),
    decreases members.len(),
{
    if members.len() > 0 && members[0].0 != key {
        let rest = members.drop_first();
        lemma_found_member_stands(rest, key);
        if member(rest, key) is Some {
            let j = choose|j: int|
                0 <= j < rest.len() && (#[trigger] rest[j]).0 == key && member(rest, key) == Some(
                    rest[j].1,
                );
            assert(members[j + 1] == rest[j]);
        }
    }
}

/// The model of a value says what the value holds, item by item and member by
/// member.
pub proof fn law_model_says_what_the_value_holds(v: JsonValue)
    ensures
        match v {
            JsonValue::Null => v@ is Null,
            JsonValue::Bool(b) => v@ == Json::Bool(b),
            JsonValue::Unsigned(n) => v@ == Json::Unsigned(n),
            JsonValue::Negative(n) => v@ == Json::Negative(n),
            JsonValue::Float(s) => v@ == Json::Float(s@),
            JsonValue::Text(s) => v@ == Json::Text(s@),
            JsonValue::Array(items) => {
                &&& v@ is Array
                &&& v@->Array_0.len() == items@.len()
                &&& forall|i: int|
                    0 <= i < items@.len() ==> (#[trigger] v@->Array_0[i]) == items@[i]@
            },
            JsonValue::Object(members) => {
                &&& v@ is Object
                &&& v@->Object_0.len() == members@.len()
                &&& forall|i: int|
                    0 <= i < members@.len() ==> (#[trigger] v@->Object_0[i]).0 == members@[i].key@
                        && v@->Object_0[i].1 == members@[i].value@
            },
        },
{
}

/// The model of a list of members has one entry for each, in their order.
pub proof fn law_members_are_modelled_one_by_one(members: Seq<JsonMember>)
    ensures
        members_view(members).len() == members.len(),
        forall|i: int|
            0 <= i < members.len() ==> (#[trigger] members_view(members)[i]).0 == members[i].key@
                && members_view(members)[i].1 == members[i].value@,
{
}

/// A number is read as the signed integer that it is, and only where it fits;
/// nothing else is read as one.
pub proof fn law_integers_are_read_exactly(v: Json, n: i64)
    ensures
        json_i64(v) == Some(n) <==> (v matches Json::Unsigned(u) && u == n) || (v matches
            Json::Negative(m) && m == n),
        json_i64(v) is Some ==> v is Unsigned || v is Negative,
{
}

/// A text is read from a JSON string and from nothing else.
pub proof fn law_texts_are_read_from_strings(v: Json, key: Seq<char>)
    ensures
        json_text(v) matches Some(s) ==> v == Json::Text(s),
        json_text(v) is None ==> !(v is Text),
        json_text_member(v, key) matches Some(s) ==> json_get(v, key) == Some(Json::Text(s)),
        json_get(v, key) is Some && json_get(v, key)->0 is Text ==> json_text_member(v, key) == Some(
            json_get(v, key)->0->Text_0,
        ),
{
}

} // verus!
