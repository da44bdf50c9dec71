use vstd::prelude::*;
use crate::text::same_text;

verus! {

/// A JSON number as serde_json keeps it: a non-negative integer, a negative
/// integer, or a floating-point number held by its shortest decimal text.
#[derive(Debug, PartialEq)]
pub enum JsonNumber {
    PosInt(u64),
    NegInt(i64),
    Float(String),
}

/// A JSON document.
#[derive(Debug, PartialEq)]
pub enum Json {
    Null,
    Bool(bool),
    Number(JsonNumber),
    String(String),
    Array(Vec<Json>),
    Object(Vec<(String, Json)>),
}

pub enum NumberV {
    PosInt(u64),
    NegInt(i64),
    Float(Seq<char>),
}

pub enum JsonV {
    Null,
    Bool(bool),
    Number(NumberV),
    Str(Seq<char>),
    Array(Seq<JsonV>),
    Object(Seq<(Seq<char>, JsonV)>),
}

pub open spec fn number_view(n: JsonNumber) -> NumberV {
    match n {
        JsonNumber::PosInt(u) => NumberV::PosInt(u),
        JsonNumber::NegInt(i) => NumberV::NegInt(i),
        JsonNumber::Float(s) => NumberV::Float(s@),
    }
}

pub open spec fn json_view(j: Json) -> JsonV
    decreases j,
{
    match j {
        Json::Null => JsonV::Null,
        Json::Bool(b) => JsonV::Bool(b),
        Json::Number(n) => JsonV::Number(number_view(n)),
        Json::String(s) => JsonV::Str(s@),
        Json::Array(items) => JsonV::Array(items_view(items@)),
        Json::Object(entries) => JsonV::Object(entries_view(entries@)),
    }
}

pub open spec fn items_view(s: Seq<Json>) -> Seq<JsonV>
    decreases s,
{
    if s.len() == 0 {
        Seq::empty()
    } else {
        items_view(s.drop_last()).push(json_view(s.last()))
    }
}

pub open spec fn entries_view(s: Seq<(String, Json)>) -> Seq<(Seq<char>, JsonV)>
    decreases s,
{
    if s.len() == 0 {
        Seq::empty()
    } else {
        entries_view(s.drop_last()).push((s.last().0@, json_view(s.last().1)))
    }
}

}

verus! {

impl View for Json {
    type V = JsonV;

    open spec fn view(&self) -> JsonV {
        json_view(*self)
    }
}

pub proof fn lemma_items_view(s: Seq<Json>)
    ensures
        items_view(s).len() == s.len(),
        forall|i: int| 0 <= i < s.len() ==> #[trigger] items_view(s)[i] == json_view(s[i]),
    decreases s.len(),
{
    if s.len() > 0 {
        lemma_items_view(s.drop_last());
    }
}

pub proof fn lemma_entries_view(s: Seq<(String, Json)>)
    ensures
        entries_view(s).len() == s.len(),
        forall|i: int|
            0 <= i < s.len() ==> #[trigger] entries_view(s)[i] == (s[i].0@, json_view(s[i].1)),
    decreases s.len(),
{
    if s.len() > 0 {
        lemma_entries_view(s.drop_last());
    }
}

pub proof fn lemma_items_view_push(s: Seq<Json>, x: Json)
    ensures
        items_view(s.push(x)) == items_view(s).push(json_view(x)),
{
    assert(s.push(x).drop_last() == s);
}

pub proof fn lemma_entries_view_push(s: Seq<(String, Json)>, k: String, x: Json)
    ensures
        entries_view(s.push((k, x))) == entries_view(s).push((k@, json_view(x))),
{
    assert(s.push((k, x)).drop_last() == s);
}

/// The index of the first entry whose key is `key`, if any.
pub open spec fn find_key(entries: Seq<(Seq<char>, JsonV)>, key: Seq<char>) -> Option<int>
    decreases entries.len(),
{
    if entries.len() == 0 {
        None
    } else {
        match find_key(entries.drop_last(), key) {
            Some(i) => Some(i),
            None => if entries.last().0 == key {
                Some(entries.len() - 1)
            } else {
                None
            },
        }
    }
}

/// The value an object holds under `key`: the first entry with that key.
pub open spec fn obj_get(entries: Seq<(Seq<char>, JsonV)>, key: Seq<char>) -> Option<JsonV> {
    match find_key(entries, key) {
        Some(i) => Some(entries[i].1),
        None => None,
    }
}

/// The object after `insert(key, value)`: the value under `key` is replaced in
/// place when the key is present, else the entry is appended.
pub open spec fn obj_insert(
    entries: Seq<(Seq<char>, JsonV)>,
    key: Seq<char>,
    value: JsonV,
) -> Seq<(Seq<char>, JsonV)> {
    match find_key(entries, key) {
        Some(i) => entries.update(i, (key, value)),
        None => entries.push((key, value)),
    }
}

/// `value.get(key)` in serde_json: a field of an object, nothing for anything else.
pub open spec fn jget(v: JsonV, key: Seq<char>) -> Option<JsonV> {
    match v {
        JsonV::Object(entries) => obj_get(entries, key),
        _ => None,
    }
}

pub proof fn lemma_find_key(entries: Seq<(Seq<char>, JsonV)>, key: Seq<char>)
    ensures
        match find_key(entries, key) {
            Some(i) => 0 <= i < entries.len() && entries[i].0 == key && forall|j: int|
                0 <= j < i ==> entries[j].0 != key,
            None => forall|j: int| 0 <= j < entries.len() ==> entries[j].0 != key,
        },
    decreases entries.len(),
{
    if entries.len() > 0 {
        lemma_find_key(entries.drop_last(), key);
        assert(forall|j: int| 0 <= j < entries.len() - 1 ==> entries.drop_last()[j] == entries[j]);
    }
}

pub proof fn lemma_find_key_unique(entries: Seq<(Seq<char>, JsonV)>, key: Seq<char>, i: int)
    requires
        0 <= i < entries.len(),
        entries[i].0 == key,
        forall|j: int| 0 <= j < i ==> entries[j].0 != key,
    ensures
        find_key(entries, key) == Some(i),
    decreases entries.len(),
{
    lemma_find_key(entries, key);
    if i < entries.len() - 1 {
        lemma_find_key_unique(entries.drop_last(), key, i);
    } else {
        lemma_find_key(entries.drop_last(), key);
    }
}

pub proof fn lemma_find_key_none(entries: Seq<(Seq<char>, JsonV)>, key: Seq<char>)
    requires
        forall|j: int| 0 <= j < entries.len() ==> entries[j].0 != key,
    ensures
        find_key(entries, key) is None,
{
    lemma_find_key(entries, key);
}

/// No two entries of an object share a key.
pub open spec fn keys_unique(entries: Seq<(Seq<char>, JsonV)>) -> bool {
    forall|i: int, j: int| 0 <= i < j < entries.len() ==> #[trigger] entries[i].0 != #[trigger] entries[j].0
}

/// Inserting into an object whose keys are unique keeps them unique.
pub proof fn law_obj_insert_unique(entries: Seq<(Seq<char>, JsonV)>, key: Seq<char>, value: JsonV)
    requires
        keys_unique(entries),
    ensures
        keys_unique(obj_insert(entries, key, value)),
{
    lemma_find_key(entries, key);
    let out = obj_insert(entries, key, value);
    match find_key(entries, key) {
        Some(k) => {
            assert forall|i: int, j: int| 0 <= i < j < out.len() implies #[trigger] out[i].0 != #[trigger] out[j].0 by {
                assert(out[i].0 == entries[i].0 && out[j].0 == entries[j].0);
            }
        },
        None => {
            assert forall|i: int, j: int| 0 <= i < j < out.len() implies #[trigger] out[i].0 != #[trigger] out[j].0 by {
                if j == entries.len() {
                    assert(entries[i].0 != key);
                } else {
                    assert(out[i] == entries[i] && out[j] == entries[j]);
                }
            }
        },
    }
}

/// What a write gives back: after inserting `value` under `key`, a lookup of
/// `key` yields `value`, and every other key yields what it yielded before.
pub proof fn lemma_obj_insert_get(
    entries: Seq<(Seq<char>, JsonV)>,
    key: Seq<char>,
    value: JsonV,
    other: Seq<char>,
)
    ensures
        obj_get(obj_insert(entries, key, value), key) == Some(value),
        other != key ==> obj_get(obj_insert(entries, key, value), other) == obj_get(
            entries,
            other,
        ),
{
    let ins = obj_insert(entries, key, value);
    lemma_find_key(entries, key);
    lemma_find_key(entries, other);
    match find_key(entries, key) {
        Some(i) => {
            lemma_find_key_unique(ins, key, i);
            if other != key {
                match find_key(entries, other) {
                    Some(j) => lemma_find_key_unique(ins, other, j),
                    None => lemma_find_key_none(ins, other),
                }
            }
        },
        None => {
            lemma_find_key_unique(ins, key, entries.len() as int);
            if other != key {
                match find_key(entries, other) {
                    Some(j) => lemma_find_key_unique(ins, other, j),
                    None => lemma_find_key_none(ins, other),
                }
            }
        },
    }
}

impl Clone for JsonNumber {
    fn clone(&self) -> (r: Self)
        ensures
            number_view(r) == number_view(*self),
    {
        match self {
            JsonNumber::PosInt(u) => JsonNumber::PosInt(*u),
            JsonNumber::NegInt(i) => JsonNumber::NegInt(*i),
            JsonNumber::Float(s) => JsonNumber::Float(s.clone()),
        }
    }
}

impl Clone for Json {
    #[verifier::loop_isolation(false)]
    fn clone(&self) -> (r: Self)
        ensures
            r@ == self@,
        decreases self,
    {
        match self {
            Json::Null => Json::Null,
            Json::Bool(b) => Json::Bool(*b),
            Json::Number(n) => Json::Number(n.clone()),
            Json::String(s) => Json::String(s.clone()),
            Json::Array(items) => {
                let mut out: Vec<Json> = Vec::new();
                let mut i: usize = 0;
                while i < items.len()
                    invariant
                        i <= items@.len(),
                        items_view(out@) == items_view(items@.take(i as int)),
                    decreases items@.len() - i,
                {
                    proof {
                        assert(decreases_to!(*items => items@[i as int]));
                    }
                    let x = items[i].clone();
                    proof {
                        lemma_items_view_push(out@, x);
                        assert(items@.take(i + 1) == items@.take(i as int).push(items@[i as int]));
                        lemma_items_view_push(items@.take(i as int), items@[i as int]);
                    }
                    out.push(x);
                    i = i + 1;
                }
                assert(items@.take(items@.len() as int) == items@);
                Json::Array(out)
            },
            Json::Object(entries) => {
                let mut out: Vec<(String, Json)> = Vec::new();
                let mut i: usize = 0;
                while i < entries.len()
                    invariant
                        i <= entries@.len(),
                        entries_view(out@) == entries_view(entries@.take(i as int)),
                    decreases entries@.len() - i,
                {
                    let k = entries[i].0.clone();
                    proof {
                        assert(decreases_to!(*entries => entries@[i as int]));
                    }
                    let x = entries[i].1.clone();
                    proof {
                        lemma_entries_view_push(out@, k, x);
                        assert(entries@.take(i + 1) == entries@.take(i as int).push(
                            entries@[i as int],
                        ));
                        lemma_entries_view_push(
                            entries@.take(i as int),
                            entries@[i as int].0,
                            entries@[i as int].1,
                        );
                    }
                    out.push((k, x));
                    i = i + 1;
                }
                assert(entries@.take(entries@.len() as int) == entries@);
                Json::Object(out)
            },
        }
    }
}

}

verus! {

/// The position of the first entry whose key is `key`.
pub fn find_entry(entries: &Vec<(String, Json)>, key: &str) -> (r: Option<usize>)
    ensures
        match r {
            Some(i) => find_key(entries_view(entries@), key@) == Some(i as int),
            None => find_key(entries_view(entries@), key@) is None,
        },
{
    proof {
        lemma_entries_view(entries@);
    }
    let mut i: usize = 0;
    while i < entries.len()
        invariant
            i <= entries@.len(),
            entries_view(entries@).len() == entries@.len(),
            forall|j: int|
                0 <= j < entries@.len() ==> #[trigger] entries_view(entries@)[j] == (
                    entries@[j].0@,
                    json_view(entries@[j].1),
                ),
            forall|j: int| 0 <= j < i ==> entries_view(entries@)[j].0 != key@,
        decreases entries@.len() - i,
    {
        if same_text(entries[i].0.as_str(), key) {
            proof {
                lemma_find_key_unique(entries_view(entries@), key@, i as int);
            }
            return Some(i);
        }
        i = i + 1;
    }
    proof {
        lemma_find_key_none(entries_view(entries@), key@);
    }
    None
}

/// `map.insert(key, value)` on an object's entries.
pub fn insert_entry(entries: &mut Vec<(String, Json)>, key: String, value: Json)
    ensures
        entries_view(final(entries)@) == obj_insert(entries_view(old(entries)@), key@, value@),
{
    proof {
        lemma_entries_view(entries@);
    }
    let found = find_entry(entries, key.as_str());
    proof {
        lemma_find_key(entries_view(entries@), key@);
    }
    match found {
        Some(i) => {
            let ghost before = entries@;
            entries.set(i, (key, value));
            proof {
                lemma_entries_view(entries@);
                lemma_entries_view(before);
                assert(entries_view(entries@) =~= entries_view(before).update(
                    i as int,
                    (key@, value@),
                ));
            }
        },
        None => {
            let ghost before = entries@;
            entries.push((key, value));
            proof {
                lemma_entries_view_push(before, key, value);
            }
        },
    }
}

/// `map.get(key)` on an object's entries.
pub fn get_entry<'a>(entries: &'a Vec<(String, Json)>, key: &str) -> (r: Option<&'a Json>)
    ensures
        match r {
            Some(v) => obj_get(entries_view(entries@), key@) == Some(v@),
            None => obj_get(entries_view(entries@), key@) is None,
        },
{
    proof {
        lemma_entries_view(entries@);
    }
    let found = find_entry(entries, key);
    proof {
        lemma_find_key(entries_view(entries@), key@);
    }
    match found {
        Some(i) => Some(&entries[i].1),
        None => None,
    }
}

pub open spec fn is_i64_number(n: NumberV) -> bool {
    match n {
        NumberV::PosInt(u) => u <= i64::MAX,
        NumberV::NegInt(_) => true,
        NumberV::Float(_) => false,
    }
}

impl Json {
    pub fn is_null(&self) -> (b: bool)
        ensures
            b == (self@ is Null),
    {
        match self {
            Json::Null => true,
            _ => false,
        }
    }

    pub fn is_boolean(&self) -> (b: bool)
        ensures
            b == (self@ is Bool),
    {
        match self {
            Json::Bool(_) => true,
            _ => false,
        }
    }

    pub fn is_number(&self) -> (b: bool)
        ensures
            b == (self@ is Number),
    {
        match self {
            Json::Number(_) => true,
            _ => false,
        }
    }

    /// Whether the value is a number that fits an `i64`.
    pub fn is_i64(&self) -> (b: bool)
        ensures
            b == (self@ is Number && is_i64_number(self@->Number_0)),
    {
        match self {
            Json::Number(JsonNumber::PosInt(u)) => *u <= 9223372036854775807u64,
            Json::Number(JsonNumber::NegInt(_)) => true,
            _ => false,
        }
    }

    pub fn is_string(&self) -> (b: bool)
        ensures
            b == (self@ is Str),
    {
        match self {
            Json::String(_) => true,
            _ => false,
        }
    }

    pub fn is_array(&self) -> (b: bool)
        ensures
            b == (self@ is Array),
    {
        match self {
            Json::Array(_) => true,
            _ => false,
        }
    }

    pub fn is_object(&self) -> (b: bool)
        ensures
            b == (self@ is Object),
    {
        match self {
            Json::Object(_) => true,
            _ => false,
        }
    }

    /// `value.get(key)`: the field of an object, nothing for any other value.
    pub fn get(&self, key: &str) -> (r: Option<&Json>)
        ensures
            match r {
                Some(v) => jget(self@, key@) == Some(v@),
                None => jget(self@, key@) is None,
            },
    {
        match self {
            Json::Object(entries) => get_entry(entries, key),
            _ => None,
        }
    }

    /// An empty object.
    pub fn empty_object() -> (r: Json)
        ensures
            r@ == JsonV::Object(Seq::empty()),
    {
        Json::Object(Vec::new())
    }
}

}
