//! The JSON values that OneBot messages, events and API requests are made of.
//!
//! Objects are kept as ordered lists of entries; `object_insert` places a new key
//! where an ordered map (ordered by key text) would place it and overwrites an
//! existing key in place, so objects built here list their keys in key order.
use vstd::prelude::*;
use crate::text::str_chars;

verus! {

/// The mathematical value of a JSON document.
pub enum JsonV {
    Null,
    Bool(bool),
    Int(int),
    /// A number that is not a 64-bit signed integer, by its text.
    OtherNumber(Seq<char>),
    Str(Seq<char>),
    Array(Seq<JsonV>),
    Object(Seq<(Seq<char>, JsonV)>),
}

/// A JSON value.
#[derive(Debug)]
pub enum Json {
    Null,
    Bool(bool),
    Int(i64),
    /// A number that is not a 64-bit signed integer (a fraction, or above `i64::MAX`), by its text.
    OtherNumber(String),
    Str(String),
    Array(Vec<Json>),
    Object(Vec<JsonEntry>),
}

/// One key and its value in a JSON object.
#[derive(Debug)]
pub struct JsonEntry {
    pub key: String,
    pub value: Json,
}

/// The mathematical value of a JSON value.
pub open spec fn json_view(j: Json) -> JsonV
    decreases j,
{
    match j {
        Json::Null => JsonV::Null,
        Json::Bool(b) => JsonV::Bool(b),
        Json::Int(i) => JsonV::Int(i as int),
        Json::OtherNumber(s) => JsonV::OtherNumber(s@),
        Json::Str(s) => JsonV::Str(s@),
        Json::Array(v) => JsonV::Array(array_view(v@)),
        Json::Object(v) => JsonV::Object(entries_view(v@)),
    }
}

/// The values of an array, by view.
pub open spec fn array_view(s: Seq<Json>) -> Seq<JsonV>
    decreases s,
{
    if s.len() == 0 {
        Seq::empty()
    } else {
        array_view(s.drop_last()).push(json_view(s.last()))
    }
}

/// The entries of an object, by view.
pub open spec fn entries_view(s: Seq<JsonEntry>) -> Seq<(Seq<char>, JsonV)>
    decreases s,
{
    if s.len() == 0 {
        Seq::empty()
    } else {
        entries_view(s.drop_last()).push((s.last().key@, json_view(s.last().value)))
    }
}

impl View for Json {
    type V = JsonV;

    open spec fn view(&self) -> JsonV {
        json_view(*self)
    }
}

pub proof fn lemma_entries_view(s: Seq<JsonEntry>)
    ensures
        entries_view(s).len() == s.len(),
        forall|i: int| 0 <= i < s.len() ==> #[trigger] entries_view(s)[i] == (s[i].key@, s[i].value@),
    decreases s.len(),
{
    if s.len() > 0 {
        lemma_entries_view(s.drop_last());
    }
}

pub proof fn lemma_array_view(s: Seq<Json>)
    ensures
        array_view(s).len() == s.len(),
        forall|i: int| 0 <= i < s.len() ==> #[trigger] array_view(s)[i] == s[i]@,
    decreases s.len(),
{
    if s.len() > 0 {
        lemma_array_view(s.drop_last());
    }
}

pub proof fn lemma_object_view(v: Vec<JsonEntry>)
    ensures
        Json::Object(v)@ == JsonV::Object(entries_view(v@)),
        entries_view(v@).len() == v@.len(),
        forall|i: int| 0 <= i < v@.len() ==> #[trigger] entries_view(v@)[i] == (v@[i].key@, v@[i].value@),
{
    lemma_entries_view(v@);
}

/// `i` is the first index of an entry whose key is `k`.
pub open spec fn first_key_at(es: Seq<(Seq<char>, JsonV)>, k: Seq<char>, i: int) -> bool {
    &&& 0 <= i < es.len()
    &&& es[i].0 == k
    &&& forall|j: int| 0 <= j < i ==> es[j].0 != k
}

/// The index of the first entry with key `k`, if any.
pub open spec fn key_index(es: Seq<(Seq<char>, JsonV)>, k: Seq<char>) -> Option<int> {
    if exists|i: int| first_key_at(es, k, i) {
        Some(choose|i: int| first_key_at(es, k, i))
    } else {
        None
    }
}

/// Text order on keys: the order of their characters' code points, a proper prefix first.
pub open spec fn key_lt(a: Seq<char>, b: Seq<char>) -> bool {
    exists|i: int|
        #![trigger a.take(i), b.take(i)]
        0 <= i <= a.len() && i <= b.len() && a.take(i) == b.take(i) && (
        (i == a.len() && i < b.len()) || (i < a.len() && i < b.len() && (a[i] as u32) < (b[i] as u32)))
}

/// Where an ordered map puts a new key: before the first entry whose key is not below it.
pub open spec fn insert_pos(es: Seq<(Seq<char>, JsonV)>, k: Seq<char>) -> int {
    if exists|i: int| 0 <= i < es.len() && !key_lt(es[i].0, k) && (forall|j: int| 0 <= j < i ==> key_lt(es[j].0, k)) {
        choose|i: int| 0 <= i < es.len() && !key_lt(es[i].0, k) && (forall|j: int| 0 <= j < i ==> key_lt(es[j].0, k))
    } else {
        es.len() as int
    }
}

/// The entries after setting key `k` to `v`: an existing key keeps its place, a new one
/// goes where an ordered map puts it.
pub open spec fn obj_insert(es: Seq<(Seq<char>, JsonV)>, k: Seq<char>, v: JsonV) -> Seq<(Seq<char>, JsonV)> {
    match key_index(es, k) {
        Some(i) => es.update(i, (k, v)),
        None => es.insert(insert_pos(es, k), (k, v)),
    }
}

/// An object of the given entries, each set in turn on an empty object.
pub open spec fn obj_from(kvs: Seq<(Seq<char>, JsonV)>) -> Seq<(Seq<char>, JsonV)>
    decreases kvs.len(),
{
    if kvs.len() == 0 {
        Seq::empty()
    } else {
        obj_insert(obj_from(kvs.drop_last()), kvs.last().0, kvs.last().1)
    }
}

impl JsonV {
    /// The value under key `k` of an object (its first entry with that key).
    pub open spec fn get(self, k: Seq<char>) -> Option<JsonV> {
        match self {
            JsonV::Object(es) => match key_index(es, k) {
                Some(i) => Some(es[i].1),
                None => None,
            },
            _ => None,
        }
    }

    pub open spec fn as_str(self) -> Option<Seq<char>> {
        match self {
            JsonV::Str(s) => Some(s),
            _ => None,
        }
    }

    pub open spec fn as_i64(self) -> Option<int> {
        match self {
            JsonV::Int(i) => Some(i),
            _ => None,
        }
    }

    pub open spec fn as_bool(self) -> Option<bool> {
        match self {
            JsonV::Bool(b) => Some(b),
            _ => None,
        }
    }

    /// The text of a string value, and `None` for a missing or non-string value.
    pub open spec fn str_of(v: Option<JsonV>) -> Option<Seq<char>> {
        match v {
            Some(j) => j.as_str(),
            None => None,
        }
    }

    /// The integer of an integer value, and `None` for a missing or non-integer value.
    pub open spec fn i64_of(v: Option<JsonV>) -> Option<int> {
        match v {
            Some(j) => j.as_i64(),
            None => None,
        }
    }
}

/// Whether two string slices hold the same text.
pub fn str_eq(a: &str, b: &str) -> (r: bool)
    ensures
        r == (a@ == b@),
{
    let x = a.to_owned();
    let y = b.to_owned();
    x == y
}

/// Whether key `a` comes before key `b` in text order.
pub fn str_lt(a: &str, b: &str) -> (r: bool)
    ensures
        r == key_lt(a@, b@),
{
    let ac = str_chars(a);
    let bc = str_chars(b);
    let mut i: usize = 0;
    while i < ac.len() && i < bc.len() && ac[i] == bc[i]
        invariant
            ac@ == a@,
            bc@ == b@,
            0 <= i <= ac@.len(),
            i <= bc@.len(),
            ac@.take(i as int) == bc@.take(i as int),
        decreases ac@.len() - i,
    {
        assert(ac@.take(i + 1) == ac@.take(i as int).push(ac@[i as int]));
        assert(bc@.take(i + 1) == bc@.take(i as int).push(bc@[i as int]));
        i = i + 1;
    }
    let r = if i < ac.len() && i < bc.len() {
        (ac[i] as u32) < (bc[i] as u32)
    } else {
        i == ac.len() && i < bc.len()
    };
    if r {
        assert(a@.take(i as int) == b@.take(i as int));
    } else {
        assert forall|j: int|
            0 <= j <= a@.len() && j <= b@.len() && #[trigger] a@.take(j) == #[trigger] b@.take(j)
            implies !((j == a@.len() && j < b@.len()) || (j < a@.len() && j < b@.len()
                && (a@[j] as u32) < (b@[j] as u32))) by {
            if j > i {
                assert(a@.take(j)[i as int] == b@.take(j)[i as int]);
            } else if j < i {
                assert(a@.take(i as int)[j] == b@.take(i as int)[j]);
            }
        }
    }
    r
}

impl Json {
    /// A string value.
    pub fn string(s: &str) -> (r: Json)
        ensures
            r@ == JsonV::Str(s@),
    {
        Json::Str(s.to_owned())
    }

    /// An object with no entries.
    pub fn empty_object() -> (r: Json)
        ensures
            r@ == JsonV::Object(Seq::empty()),
    {
        let v: Vec<JsonEntry> = Vec::new();
        proof { lemma_object_view(v); }
        Json::Object(v)
    }

    /// The value under key `key` of an object; `None` for a missing key or a non-object.
    pub fn get(&self, key: &str) -> (r: Option<&Json>)
        ensures
            match r {
                Some(j) => self@.get(key@) == Some(j@),
                None => self@.get(key@) is None,
            },
    {
        match self {
            Json::Object(es) => {
                proof { lemma_object_view(*es); }
                assert(self@ == JsonV::Object(entries_view(es@)));
                let ghost ev = entries_view(es@);
                let mut i: usize = 0;
                while i < es.len()
                    invariant
                        0 <= i <= es@.len(),
                        ev == entries_view(es@),
                        self@ == JsonV::Object(ev),
                        ev.len() == es@.len(),
                        forall|j: int| 0 <= j < es@.len() ==> #[trigger] ev[j] == (es@[j].key@, es@[j].value@),
                        forall|j: int| 0 <= j < i ==> ev[j].0 != key@,
                    decreases es@.len() - i,
                {
                    if str_eq(es[i].key.as_str(), key) {
                        assert(first_key_at(ev, key@, i as int));
                        assert(key_index(ev, key@) == Some(i as int));
                        return Some(&es[i].value);
                    }
                    i = i + 1;
                }
                assert(!exists|k: int| first_key_at(ev, key@, k));
                None
            },
            _ => None,
        }
    }

    /// The text of a string value.
    pub fn as_str(&self) -> (r: Option<&str>)
        ensures
            match r {
                Some(s) => self@.as_str() == Some(s@),
                None => self@.as_str() is None,
            },
    {
        match self {
            Json::Str(s) => Some(s.as_str()),
            _ => None,
        }
    }

    /// The integer of an integer value.
    pub fn as_i64(&self) -> (r: Option<i64>)
        ensures
            match r {
                Some(i) => self@.as_i64() == Some(i as int),
                None => self@.as_i64() is None,
            },
    {
        match self {
            Json::Int(i) => Some(*i),
            _ => None,
        }
    }

    /// The value of a boolean.
    pub fn as_bool(&self) -> (r: Option<bool>)
        ensures
            r == self@.as_bool(),
    {
        match self {
            Json::Bool(b) => Some(*b),
            _ => None,
        }
    }

    /// Whether this is `null`.
    pub fn is_null(&self) -> (r: bool)
        ensures
            r == (self@ is Null),
    {
        match self {
            Json::Null => true,
            _ => false,
        }
    }

    /// Whether this is an array.
    pub fn is_array(&self) -> (r: bool)
        ensures
            r == (self@ is Array),
    {
        match self {
            Json::Array(_) => true,
            _ => false,
        }
    }
}

/// Sets key `key` to `value` in an object's entries, as an ordered map does.
pub fn object_insert(es: &mut Vec<JsonEntry>, key: String, value: Json)
    ensures
        entries_view(final(es)@) == obj_insert(entries_view(old(es)@), key@, value@),
{
    let ghost ev = entries_view(es@);
    proof { lemma_entries_view(es@); }
    let ghost k = key@;
    let ghost v = value@;
    let mut i: usize = 0;
    while i < es.len()
        invariant
            0 <= i <= es@.len(),
            es@ == old(es)@,
            ev == entries_view(es@),
            ev.len() == es@.len(),
            forall|j: int| 0 <= j < es@.len() ==> #[trigger] ev[j] == (es@[j].key@, es@[j].value@),
            k == key@,
            v == value@,
            forall|j: int| 0 <= j < i ==> ev[j].0 != k,
        decreases es@.len() - i,
    {
        if str_eq(es[i].key.as_str(), key.as_str()) {
            assert(first_key_at(ev, k, i as int));
            assert(key_index(ev, k) == Some(i as int));
            es.set(i, JsonEntry { key, value });
            proof { lemma_entries_view(es@); }
            assert(es@[i as int].key@ == k);
            assert(es@[i as int].value@ == v);
            assert forall|j: int| 0 <= j < ev.len() implies #[trigger] entries_view(es@)[j] == ev.update(i as int, (k, v))[j] by {
                if j != i {
                    assert(es@[j] == old(es)@[j]);
                }
            }
            assert(entries_view(es@) =~= ev.update(i as int, (k, v)));
            return;
        }
        i = i + 1;
    }
    assert(!exists|m: int| first_key_at(ev, k, m));
    let mut p: usize = 0;
    while p < es.len() && str_lt(es[p].key.as_str(), key.as_str())
        invariant
            0 <= p <= es@.len(),
            es@ == old(es)@,
            ev == entries_view(es@),
            ev.len() == es@.len(),
            forall|j: int| 0 <= j < es@.len() ==> #[trigger] ev[j] == (es@[j].key@, es@[j].value@),
            k == key@,
            v == value@,
            forall|j: int| 0 <= j < p ==> key_lt(ev[j].0, k),
        decreases es@.len() - p,
    {
        p = p + 1;
    }
    if p < es.len() {
        assert(0 <= p < ev.len() && !key_lt(ev[p as int].0, k) && (forall|j: int| 0 <= j < p ==> key_lt(ev[j].0, k)));
        let ghost q = insert_pos(ev, k);
        assert(q == p) by {
            if q < p {
                assert(key_lt(ev[q].0, k));
            } else if q > p {
                assert(key_lt(ev[p as int].0, k));
            }
        }
    } else {
        assert(!exists|m: int| 0 <= m < ev.len() && !key_lt(ev[m].0, k) && (forall|j: int| 0 <= j < m ==> key_lt(ev[j].0, k)));
    }
    es.insert(p, JsonEntry { key, value });
    proof { lemma_entries_view(es@); }
    assert(entries_view(es@) =~= ev.insert(p as int, (k, v)));
}

} // verus!
