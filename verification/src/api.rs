//! Requests to the OneBot server and its replies.
use vstd::prelude::*;
use crate::json::{Json, JsonV, JsonEntry, entries_view, lemma_entries_view, obj_from, object_insert, lemma_array_view, array_view};
use crate::message::{Message, Segment, SegmentV};
use crate::text::{spec_digits, push_digits};

verus! {

/// The mathematical value of a request.
pub struct SendApiV {
    pub action: Seq<char>,
    pub params: JsonV,
    pub echo: Seq<char>,
}

/// A request to the OneBot server: the action, its parameters, and the tag that its reply
/// carries back (`"None"` when no reply is awaited).
#[derive(Debug)]
pub struct SendApi {
    pub action: String,
    pub params: Json,
    pub echo: String,
}

impl View for SendApi {
    type V = SendApiV;

    open spec fn view(&self) -> SendApiV {
        SendApiV { action: self.action@, params: self.params@, echo: self.echo@ }
    }
}

/// A reply of the OneBot server to a request.
#[derive(Debug)]
pub struct ApiReturn {
    pub status: String,
    pub retcode: i32,
    pub data: Json,
    pub echo: String,
}

impl SendApi {
    /// A request for `action` with `params`, tagged `echo`.
    pub fn new(action: &str, params: Json, echo: &str) -> (r: SendApi)
        ensures
            r@ == (SendApiV { action: action@, params: params@, echo: echo@ }),
    {
        SendApi { action: action.to_owned(), params, echo: echo.to_owned() }
    }
}

/// The views of a list of key-value pairs.
pub open spec fn kv_views(kvs: Seq<(String, Json)>) -> Seq<(Seq<char>, JsonV)> {
    Seq::new(kvs.len(), |i: int| (kvs[i].0@, kvs[i].1@))
}

/// The object made by setting each pair in turn on an empty object.
pub fn object_from(kvs: Vec<(String, Json)>) -> (r: Json)
    ensures
        r@ == JsonV::Object(obj_from(kv_views(kvs@))),
{
    let ghost all = kv_views(kvs@);
    let mut rest = kvs;
    let mut es: Vec<JsonEntry> = Vec::new();
    let ghost mut n: int = 0;
    assert(all.take(0) =~= Seq::<(Seq<char>, JsonV)>::empty());
    assert(kv_views(rest@) =~= all.skip(0));
    while rest.len() > 0
        invariant
            0 <= n <= all.len(),
            kv_views(rest@) == all.skip(n),
            entries_view(es@) == obj_from(all.take(n)),
        decreases rest@.len(),
    {
        let ghost before = rest@;
        assert(kv_views(before).len() == before.len());
        assert(n < all.len());
        let (k, v) = rest.remove(0);
        assert(kv_views(before)[0] == (k@, v@));
        object_insert(&mut es, k, v);
        proof {
            assert(all.take(n + 1).drop_last() =~= all.take(n));
            assert(all.take(n + 1).last() == all[n]);
            assert forall|i: int| 0 <= i < rest@.len() implies #[trigger] kv_views(rest@)[i] == all.skip(n + 1)[i] by {
                assert(rest@[i] == before[i + 1]);
                assert(kv_views(before)[i + 1] == all.skip(n)[i + 1]);
            }
            n = n + 1;
            assert(kv_views(rest@) =~= all.skip(n));
        }
    }
    assert(all.take(n) =~= all);
    proof { lemma_entries_view(es@); }
    Json::Object(es)
}

/// The JSON form of a segment: `{"type": ..., "data": ...}`.
pub open spec fn seg_json(s: SegmentV) -> JsonV {
    JsonV::Object(obj_from(seq![("type"@, JsonV::Str(s.type_)), ("data"@, s.data)]))
}

/// The JSON form of a message: the array of its segments' JSON forms.
pub open spec fn message_json_view(m: Seq<SegmentV>) -> JsonV {
    JsonV::Array(Seq::new(m.len(), |i: int| seg_json(m[i])))
}

/// The JSON form of a segment.
pub fn segment_json(s: &Segment) -> (r: Json)
    ensures
        r@ == seg_json(s@),
{
    let mut kvs: Vec<(String, Json)> = Vec::new();
    kvs.push(("type".to_owned(), Json::Str(s.type_.clone())));
    kvs.push(("data".to_owned(), crate::message::copy_json(&s.data)));
    assert(kv_views(kvs@) =~= seq![("type"@, JsonV::Str(s@.type_)), ("data"@, s@.data)]);
    object_from(kvs)
}

/// The JSON form of a message.
pub fn message_json(m: &Message) -> (r: Json)
    ensures
        r@ == message_json_view(m@),
{
    let mut v: Vec<Json> = Vec::new();
    let mut i: usize = 0;
    while i < m.0.len()
        invariant
            0 <= i <= m@.len(),
            v@.len() == i,
            forall|k: int| 0 <= k < i ==> #[trigger] v@[k]@ == seg_json(m@[k]),
        decreases m@.len() - i,
    {
        v.push(segment_json(&m.0[i]));
        i = i + 1;
    }
    proof { lemma_array_view(v@); }
    let r = Json::Array(v);
    assert(r@ == JsonV::Array(array_view(v@)));
    assert(array_view(v@) =~= Seq::new(m@.len(), |i: int| seg_json(m@[i])));
    r
}

/// The JSON number of a `usize`.
pub open spec fn usize_json(n: usize) -> JsonV {
    if n <= i64::MAX {
        JsonV::Int(n as int)
    } else {
        JsonV::OtherNumber(spec_digits(n as nat))
    }
}

/// The JSON number of a `usize`.
pub fn json_usize(n: usize) -> (r: Json)
    ensures
        r@ == usize_json(n),
{
    if (n as u64) <= 0x7fff_ffff_ffff_ffffu64 {
        Json::Int(n as i64)
    } else {
        let mut s = String::new();
        push_digits(&mut s, n as u64);
        Json::OtherNumber(s)
    }
}

} // verus!
