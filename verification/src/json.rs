//! JSON values, as far as messages need them.

use crate::text::same_text;
use vstd::prelude::*;

verus! {

/// A JSON value. The keys of an object differ from each other.
#[derive(Debug)]
pub enum Json {
    Null,
    Bool(bool),
    /// A number, as it is written.
    Number(String),
    Text(String),
    Array(Vec<Json>),
    Object(Vec<(String, Json)>),
}

/// A value of the `serde_json` crate.
#[verifier::external_type_specification]
#[verifier::external_body]
pub struct OutsideValue(serde_json::Value);

/// The value that `serde_json` reads from a text.
pub uninterp spec fn json_reading(text: Seq<char>) -> Option<Json>;

/// What a value of the `serde_json` crate holds.
pub uninterp spec fn held_json(value: serde_json::Value) -> Json;

/// The value under `key` among the entries of an object.
pub open spec fn find_entry(entries: Seq<(String, Json)>, key: Seq<char>) -> Option<Json>
    decreases entries.len(),
{
    if entries.len() == 0 {
        None
    } else if entries[0].0@ == key {
        Some(entries[0].1)
    } else {
        find_entry(entries.drop_first(), key)
    }
}

impl Json {
    /// The value under `key`, where this is an object that has it.
    pub open spec fn field(self, key: Seq<char>) -> Option<Json> {
        match self {
            Json::Object(entries) => find_entry(entries@, key),
            _ => None,
        }
    }

    /// The text, where this is one.
    pub open spec fn text(self) -> Option<Seq<char>> {
        match self {
            Json::Text(s) => Some(s@),
            _ => None,
        }
    }

    /// The elements, where this is an array.
    pub open spec fn elements(self) -> Option<Seq<Json>> {
        match self {
            Json::Array(v) => Some(v@),
            _ => None,
        }
    }

    /// The text under `key`.
    pub open spec fn text_field(self, key: Seq<char>) -> Option<Seq<char>> {
        match self.field(key) {
            Some(j) => j.text(),
            None => None,
        }
    }

    /// The elements of the array under `key`.
    pub open spec fn array_field(self, key: Seq<char>) -> Option<Seq<Json>> {
        match self.field(key) {
            Some(j) => j.elements(),
            None => None,
        }
    }

    /// The texts of a record with the given fields: an object that has them all,
    /// or an array of exactly as many elements.
    pub open spec fn record(self, fields: Seq<Seq<char>>) -> Option<Seq<Seq<char>>> {
        let found = match self {
            Json::Object(_) => Some(fields.map_values(|f: Seq<char>| self.text_field(f))),
            Json::Array(v) => if v@.len() == fields.len() {
                Some(v@.map_values(|j: Json| j.text()))
            } else {
                None
            },
            _ => None,
        };
        match found {
            Some(ts) => all_texts(ts),
            None => None,
        }
    }

    /// The value under `key`.
    pub fn get(&self, key: &str) -> (r: Option<&Json>)
        ensures
            match r {
                Some(j) => self.field(key@) == Some(*j),
                None => self.field(key@) is None,
            },
    {
        match self {
            Json::Object(entries) => {
                let mut i: usize = 0;
                assert(entries@.skip(0) =~= entries@);
                while i < entries.len()
                    invariant
                        i <= entries@.len(),
                        *self == Json::Object(*entries),
                        find_entry(entries@, key@) == find_entry(entries@.skip(i as int), key@),
                    decreases entries@.len() - i,
                {
                    let entry = &entries[i];
                    assert(entries@.skip(i as int)[0] == entries@[i as int]);
                    if same_text(entry.0.as_str(), key) {
                        return Some(&entry.1);
                    }
                    assert(entries@.skip(i as int).drop_first() =~= entries@.skip(i + 1));
                    i += 1;
                }
                None
            },
            _ => None,
        }
    }

    /// The text, where this is one.
    pub fn as_text(&self) -> (r: Option<&String>)
        ensures
            match r {
                Some(s) => self.text() == Some(s@),
                None => self.text() is None,
            },
    {
        match self {
            Json::Text(s) => Some(s),
            _ => None,
        }
    }

    /// The elements, where this is an array.
    pub fn as_array(&self) -> (r: Option<&Vec<Json>>)
        ensures
            match r {
                Some(v) => self.elements() == Some(v@),
                None => self.elements() is None,
            },
    {
        match self {
            Json::Array(v) => Some(v),
            _ => None,
        }
    }

    /// Whether this is an object.
    pub fn is_object(&self) -> (r: bool)
        ensures
            r == (self is Object),
    {
        match self {
            Json::Object(_) => true,
            _ => false,
        }
    }

    /// The text under `key`.
    pub fn get_text(&self, key: &str) -> (r: Option<&String>)
        ensures
            match r {
                Some(s) => self.text_field(key@) == Some(s@),
                None => self.text_field(key@) is None,
            },
    {
        match self.get(key) {
            Some(j) => j.as_text(),
            None => None,
        }
    }

    /// The elements of the array under `key`.
    pub fn get_array(&self, key: &str) -> (r: Option<&Vec<Json>>)
        ensures
            match r {
                Some(v) => self.array_field(key@) == Some(v@),
                None => self.array_field(key@) is None,
            },
    {
        match self.get(key) {
            Some(j) => j.as_array(),
            None => None,
        }
    }

    /// The texts of a record with the given fields.
    pub fn get_record(&self, fields: &Vec<&'static str>) -> (r: Option<Vec<String>>)
        ensures
            match r {
                Some(v) => self.record(fields@.map_values(|f: &'static str| f@)) == Some(
                    crate::text::texts(v@),
                ),
                None => self.record(fields@.map_values(|f: &'static str| f@)) is None,
            },
    {
        let ghost names = fields@.map_values(|f: &'static str| f@);
        let ghost wanted = match self {
            Json::Object(_) => names.map_values(|f: Seq<char>| self.text_field(f)),
            Json::Array(v) => v@.map_values(|j: Json| j.text()),
            _ => Seq::empty(),
        };
        let count: usize = fields.len();
        let as_array: Option<&Vec<Json>> = self.as_array();
        match as_array {
            Some(v) => {
                if v.len() != count {
                    return None;
                }
            },
            None => {
                if !self.is_object() {
                    return None;
                }
            },
        }
        let mut out: Vec<String> = Vec::new();
        let mut i: usize = 0;
        while i < count
            invariant
                i <= count,
                count == fields@.len(),
                names == fields@.map_values(|f: &'static str| f@),
                wanted.len() == count,
                out@.len() == i,
                self is Object || self is Array,
                as_array is Some == self is Array,
                as_array matches Some(v) ==> self.elements() == Some(v@) && v@.len() == count,
                self is Object ==> wanted == names.map_values(
                    |f: Seq<char>| self.text_field(f),
                ),
                as_array matches Some(v) ==> wanted == v@.map_values(|j: Json| j.text()),
                forall|k: int| 0 <= k < i ==> #[trigger] wanted[k] == Some(out@[k]@),
                match self {
                    Json::Object(_) => self.record(names) == all_texts(wanted),
                    Json::Array(_) => self.record(names) == all_texts(wanted),
                    _ => false,
                },
            decreases count - i,
        {
            let found: Option<&String> = match as_array {
                Some(v) => v[i].as_text(),
                None => self.get_text(fields[i]),
            };
            assert(wanted[i as int] == match found {
                Some(s) => Some(s@),
                None => None,
            });
            match found {
                Some(s) => out.push(s.clone()),
                None => {
                    assert(wanted[i as int] is None);
                    return None;
                },
            }
            i += 1;
        }
        proof {
            assert forall|k: int| 0 <= k < wanted.len() implies (#[trigger] wanted[k]) is Some by {
                assert(wanted[k] == Some(out@[k]@));
            }
            assert(wanted.map_values(|t: Option<Seq<char>>| t->0) =~= crate::text::texts(out@));
        }
        Some(out)
    }
}

/// Reads a text as JSON.
pub fn read_json(text: &str) -> (r: Option<Json>)
    ensures
        r == json_reading(text@),
{
    match raw_value(text) {
        Some(value) => Some(raw_json(value)),
        None => None,
    }
}

/// The texts, where none is missing.
pub open spec fn all_texts(ts: Seq<Option<Seq<char>>>) -> Option<Seq<Seq<char>>> {
    if forall|i: int| 0 <= i < ts.len() ==> (#[trigger] ts[i]) is Some {
        Some(ts.map_values(|t: Option<Seq<char>>| t->0))
    } else {
        None
    }
}

/// Calls `serde_json::from_str` for a value of any kind. Its grammar, the form of
/// its numbers and which of two entries with one key stays are left to the name.
#[verifier::external_body]
fn raw_value(text: &str) -> (r: Option<serde_json::Value>)
    ensures
        match r {
            Some(value) => json_reading(text@) == Some(held_json(value)),
            None => json_reading(text@) is None,
        },
{
    serde_json::from_str(text).ok()
}

/// Takes a `serde_json::Value` apart: each kind has its own, and a number is
/// written out by its `to_string`.
#[verifier::external_body]
fn raw_json(value: serde_json::Value) -> (r: Json)
    ensures
        r == held_json(value),
{
    match value {
        serde_json::Value::Null => Json::Null,
        serde_json::Value::Bool(b) => Json::Bool(b),
        serde_json::Value::Number(n) => Json::Number(n.to_string()),
        serde_json::Value::String(s) => Json::Text(s),
        serde_json::Value::Array(v) => Json::Array(v.into_iter().map(raw_json).collect()),
        serde_json::Value::Object(m) => Json::Object(
            m.into_iter().map(|(k, v)| (k, raw_json(v))).collect(),
        ),
    }
}

/// Law: an object has a field just where one of its entries has the key, and the value is
/// that of the first such entry; nothing else has fields.
pub proof fn fields_are_found_by_their_key(entries: Seq<(String, Json)>, key: Seq<char>)
    ensures
        match find_entry(entries, key) {
            Some(v) => exists|i: int|
                {
                    &&& 0 <= i < entries.len()
                    &&& (#[trigger] entries[i]).0@ == key
                    &&& entries[i].1 == v
                    &&& forall|j: int| 0 <= j < i ==> (#[trigger] entries[j]).0@ != key
                },
            None => forall|i: int| 0 <= i < entries.len() ==> (#[trigger] entries[i]).0@ != key,
        },
    decreases entries.len(),
{
    if entries.len() > 0 && entries[0].0@ != key {
        let rest = entries.drop_first();
        fields_are_found_by_their_key(rest, key);
        match find_entry(rest, key) {
            Some(v) => {
                let i = choose|i: int|
                    {
                        &&& 0 <= i < rest.len()
                        &&& (#[trigger] rest[i]).0@ == key
                        &&& rest[i].1 == v
                        &&& forall|j: int| 0 <= j < i ==> (#[trigger] rest[j]).0@ != key
                    };
                assert(entries[i + 1] == rest[i]);
                assert forall|j: int| 0 <= j < i + 1 implies (#[trigger] entries[j]).0@ != key by {
                    if j > 0 {
                        assert(rest[j - 1] == entries[j]);
                    }
                }
            },
            None => {
                assert forall|i: int| 0 <= i < entries.len() implies (#[trigger] entries[i]).0@
                    != key by {
                    if i > 0 {
                        assert(rest[i - 1] == entries[i]);
                    }
                }
            },
        }
    }
}

/// Law: a record is read from an object that has every field as a text, and from an array
/// of exactly as many texts, in their order; from nothing else.
pub proof fn records_have_every_field(j: Json, fields: Seq<Seq<char>>, i: int)
    requires
        0 <= i < fields.len(),
    ensures
        j.record(fields) matches Some(ts) ==> {
            &&& ts.len() == fields.len()
            &&& j is Object || j is Array
            &&& j is Object ==> j.text_field(fields[i]) == Some(ts[i])
            &&& j matches Json::Array(v) ==> v@.len() == fields.len() && v@[i].text() == Some(ts[i])
        },
        j is Object && j.text_field(fields[i]) is None ==> j.record(fields) is None,
        j matches Json::Array(v) ==> (v@.len() != fields.len() || v@[i].text() is None ==> j.record(
            fields,
        ) is None),
        j is Object && (forall|k: int|
            0 <= k < fields.len() ==> (#[trigger] j.text_field(fields[k])) is Some) ==> j.record(
            fields,
        ) is Some,
        j matches Json::Array(v) ==> (v@.len() == fields.len() && (forall|k: int|
            0 <= k < v@.len() ==> (#[trigger] v@[k]).text() is Some) ==> j.record(fields) is Some),
{
    match j {
        Json::Object(_) => {
            let ts = fields.map_values(|f: Seq<char>| j.text_field(f));
            assert(ts[i] == j.text_field(fields[i]));
        },
        Json::Array(v) => {
            if v@.len() == fields.len() {
                let ts = v@.map_values(|x: Json| x.text());
                assert(ts[i] == v@[i].text());
            }
        },
        _ => {},
    }
}

/// Law: only a text is a text, only an array has elements, and a field that is another kind
/// of value counts as missing.
pub proof fn values_are_read_by_their_kind(j: Json, key: Seq<char>)
    ensures
        j matches Json::Text(s) ==> j.text() == Some(s@),
        j !is Text ==> j.text() is None,
        j matches Json::Array(v) ==> j.elements() == Some(v@),
        j !is Array ==> j.elements() is None,
        j !is Object ==> j.field(key) is None && j.text_field(key) is None && j.array_field(key)
            is None,
        j matches Json::Object(entries) ==> j.field(key) == find_entry(entries@, key),
        j.field(key) matches Some(v) ==> j.text_field(key) == v.text() && j.array_field(key)
            == v.elements(),
        j.field(key) is None ==> j.text_field(key) is None && j.array_field(key) is None,
{
}

} // verus!
