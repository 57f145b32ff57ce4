//! Messages: ordered lists of segments, each a type name and a JSON payload.
use vstd::prelude::*;
use crate::error::MessageError;
use crate::json::{Json, JsonV, JsonEntry, entries_view, array_view, lemma_entries_view, lemma_array_view, str_eq};
use crate::text::{decimal, spec_decimal, string_push_str};

verus! {

/// The mathematical value of a segment.
pub struct SegmentV {
    pub type_: Seq<char>,
    pub data: JsonV,
}

/// One part of a message: its type (`text`, `at`, `image`, ...) and its data.
#[derive(Debug)]
pub struct Segment {
    pub type_: String,
    pub data: Json,
}

impl View for Segment {
    type V = SegmentV;

    open spec fn view(&self) -> SegmentV {
        SegmentV { type_: self.type_@, data: self.data@ }
    }
}

/// A message: its segments, in order.
///
/// The data of each segment is kept as it came; nothing checks that it suits the type.
#[derive(Debug)]
pub struct Message(pub Vec<Segment>);

impl View for Message {
    type V = Seq<SegmentV>;

    open spec fn view(&self) -> Seq<SegmentV> {
        seg_views(self.0@)
    }
}

/// The views of a list of segments.
pub open spec fn seg_views(v: Seq<Segment>) -> Seq<SegmentV> {
    Seq::new(v.len(), |i: int| v[i]@)
}

/// The views of a list of JSON values.
pub open spec fn json_views(v: Seq<Json>) -> Seq<JsonV> {
    Seq::new(v.len(), |i: int| v[i]@)
}

/// A one-entry object.
pub open spec fn obj1(k: Seq<char>, v: JsonV) -> JsonV {
    JsonV::Object(seq![(k, v)])
}

/// A segment of the given type whose data is the one-entry object `{k: v}` with `v` a string.
pub open spec fn seg1(t: Seq<char>, k: Seq<char>, v: Seq<char>) -> SegmentV {
    SegmentV { type_: t, data: obj1(k, JsonV::Str(v)) }
}

/// A text segment.
pub open spec fn text_seg(t: Seq<char>) -> SegmentV {
    seg1("text"@, "text"@, t)
}

/// The segments of type `t`, in order.
pub open spec fn of_type(s: Seq<SegmentV>, t: Seq<char>) -> Seq<SegmentV>
    decreases s.len(),
{
    if s.len() == 0 {
        Seq::empty()
    } else if s.last().type_ == t {
        of_type(s.drop_last(), t).push(s.last())
    } else {
        of_type(s.drop_last(), t)
    }
}

/// Whether some segment has type `t`.
pub open spec fn has_type(s: Seq<SegmentV>, t: Seq<char>) -> bool {
    exists|i: int| 0 <= i < s.len() && s[i].type_ == t
}

/// The readable text of one segment: a text segment's text (nothing if it has no string
/// `text`), and `[type]` for any other segment.
pub open spec fn human_seg(s: SegmentV) -> Seq<char> {
    if s.type_ == "text"@ {
        match JsonV::str_of(s.data.get("text"@)) {
            Some(t) => t,
            None => Seq::empty(),
        }
    } else {
        "["@ + s.type_ + "]"@
    }
}

/// The readable text of a message: each segment's readable text, in order.
pub open spec fn human_text(s: Seq<SegmentV>) -> Seq<char>
    decreases s.len(),
{
    if s.len() == 0 {
        Seq::empty()
    } else {
        human_text(s.drop_last()) + human_seg(s.last())
    }
}

/// The segment that a JSON value stands for, as the segment record format reads it: an object
/// with a string `type` and a `data` entry (other entries ignored), or a two-element array
/// `[type, data]` with a string type.
pub open spec fn segment_of(j: JsonV) -> Option<SegmentV> {
    match j {
        JsonV::Object(_) => match (JsonV::str_of(j.get("type"@)), j.get("data"@)) {
            (Some(t), Some(d)) => Some(SegmentV { type_: t, data: d }),
            _ => None,
        },
        JsonV::Array(a) => if a.len() == 2 && a[0] is Str {
            Some(SegmentV { type_: a[0]->Str_0, data: a[1] })
        } else {
            None
        },
        _ => None,
    }
}

/// The segments of a list of JSON values, if every one of them is a segment.
pub open spec fn segments_of(v: Seq<JsonV>) -> Option<Seq<SegmentV>>
    decreases v.len(),
{
    if v.len() == 0 {
        Some(Seq::empty())
    } else {
        match (segments_of(v.drop_last()), segment_of(v.last())) {
            (Some(s), Some(x)) => Some(s.push(x)),
            _ => None,
        }
    }
}

/// The error text of a list of values that are not all segments.
pub open spec fn invalid_segment_text() -> Seq<char> {
    "invalid segment"@
}

/// The error text of a value that is neither an array nor a string.
pub open spec fn not_array_text() -> Seq<char> {
    "Message::from_value only accept array"@
}

/// A copy of a JSON value.
pub fn copy_json(j: &Json) -> (r: Json)
    ensures
        r@ == j@,
    decreases j,
{
    match j {
        Json::Null => Json::Null,
        Json::Bool(b) => Json::Bool(*b),
        Json::Int(i) => Json::Int(*i),
        Json::OtherNumber(s) => Json::OtherNumber(s.clone()),
        Json::Str(s) => Json::Str(s.clone()),
        Json::Array(v) => {
            let mut out: Vec<Json> = Vec::new();
            let mut i: usize = 0;
            while i < v.len()
                invariant
                    0 <= i <= v@.len(),
                    out@.len() == i,
                    *j == Json::Array(*v),
                    forall|k: int| 0 <= k < i ==> #[trigger] out@[k]@ == v@[k]@,
                decreases v@.len() - i,
            {
                proof {
                    assert(decreases_to!(*j => (*j)->Array_0));
                    assert(decreases_to!(*v => v@));
                    assert(decreases_to!(v@ => v@[i as int]));
                    assert(decreases_to!(*j => v@[i as int]));
                }
                let c = copy_json(&v[i]);
                out.push(c);
                i = i + 1;
            }
            proof {
                lemma_array_view(out@);
                lemma_array_view(v@);
                assert(array_view(out@) =~= array_view(v@));
            }
            Json::Array(out)
        },
        Json::Object(v) => {
            let mut out: Vec<JsonEntry> = Vec::new();
            let mut i: usize = 0;
            while i < v.len()
                invariant
                    0 <= i <= v@.len(),
                    out@.len() == i,
                    *j == Json::Object(*v),
                    forall|k: int| #![trigger out@[k]] 0 <= k < i ==> out@[k].key@ == v@[k].key@ && out@[k].value@ == v@[k].value@,
                decreases v@.len() - i,
            {
                proof {
                    assert(decreases_to!(*j => (*j)->Object_0));
                    assert(decreases_to!(*v => v@));
                    assert(decreases_to!(v@ => v@[i as int]));
                    assert(decreases_to!(v@[i as int] => v@[i as int].value));
                    assert(decreases_to!(*j => v@[i as int].value));
                }
                let c = copy_json(&v[i].value);
                out.push(JsonEntry { key: v[i].key.clone(), value: c });
                i = i + 1;
            }
            proof {
                lemma_entries_view(out@);
                lemma_entries_view(v@);
                assert(entries_view(out@) =~= entries_view(v@));
            }
            Json::Object(out)
        },
    }
}

/// Whether two JSON values are equal.
pub fn json_eq(a: &Json, b: &Json) -> (r: bool)
    ensures
        r == (a@ == b@),
    decreases a,
{
    match (a, b) {
        (Json::Null, Json::Null) => true,
        (Json::Bool(x), Json::Bool(y)) => *x == *y,
        (Json::Int(x), Json::Int(y)) => *x == *y,
        (Json::OtherNumber(x), Json::OtherNumber(y)) => (*x).eq(y),
        (Json::Str(x), Json::Str(y)) => (*x).eq(y),
        (Json::Array(x), Json::Array(y)) => {
            proof {
                lemma_array_view(x@);
                lemma_array_view(y@);
            }
            if x.len() != y.len() {
                assert(array_view(x@).len() != array_view(y@).len());
                return false;
            }
            let mut i: usize = 0;
            while i < x.len()
                invariant
                    0 <= i <= x@.len(),
                    x@.len() == y@.len(),
                    *a == Json::Array(*x),
                    a@ == JsonV::Array(array_view(x@)),
                    b@ == JsonV::Array(array_view(y@)),
                    forall|k: int| 0 <= k < i ==> #[trigger] x@[k]@ == y@[k]@,
                decreases x@.len() - i,
            {
                proof {
                    assert(decreases_to!(*a => x@[i as int]));
                    lemma_array_view(x@);
                    lemma_array_view(y@);
                }
                if !json_eq(&x[i], &y[i]) {
                    assert(array_view(x@)[i as int] != array_view(y@)[i as int]);
                    return false;
                }
                i = i + 1;
            }
            proof {
                lemma_array_view(x@);
                lemma_array_view(y@);
            }
            assert(array_view(x@) =~= array_view(y@));
            true
        },
        (Json::Object(x), Json::Object(y)) => {
            proof {
                lemma_entries_view(x@);
                lemma_entries_view(y@);
            }
            if x.len() != y.len() {
                assert(entries_view(x@).len() != entries_view(y@).len());
                return false;
            }
            let mut i: usize = 0;
            while i < x.len()
                invariant
                    0 <= i <= x@.len(),
                    x@.len() == y@.len(),
                    *a == Json::Object(*x),
                    a@ == JsonV::Object(entries_view(x@)),
                    b@ == JsonV::Object(entries_view(y@)),
                    forall|k: int| #![trigger x@[k]] 0 <= k < i ==> x@[k].key@ == y@[k].key@ && x@[k].value@ == y@[k].value@,
                decreases x@.len() - i,
            {
                proof {
                    assert(decreases_to!(*a => x@[i as int].value));
                    lemma_entries_view(x@);
                    lemma_entries_view(y@);
                }
                let same_key = x[i].key.eq(&y[i].key);
                if !same_key {
                    assert(entries_view(x@)[i as int] != entries_view(y@)[i as int]);
                    return false;
                }
                let same_value = json_eq(&x[i].value, &y[i].value);
                if !same_value {
                    assert(entries_view(x@)[i as int] != entries_view(y@)[i as int]);
                    return false;
                }
                assert(x@[i as int].key@ == y@[i as int].key@ && x@[i as int].value@ == y@[i as int].value@);
                i = i + 1;
            }
            proof {
                lemma_entries_view(x@);
                lemma_entries_view(y@);
            }
            assert(entries_view(x@) =~= entries_view(y@));
            true
        },
        _ => {
            assert(a@ != b@);
            false
        },
    }
}

/// A JSON object with the single string entry `{key: value}`.
pub fn json_object1(key: &str, value: Json) -> (r: Json)
    ensures
        r@ == obj1(key@, value@),
{
    let mut v: Vec<JsonEntry> = Vec::new();
    v.push(JsonEntry { key: key.to_owned(), value });
    proof {
        lemma_entries_view(v@);
        assert(entries_view(v@) =~= seq![(key@, value@)]);
    }
    Json::Object(v)
}

impl Segment {
    /// A segment of type `type_` with data `data`.
    pub fn new(type_: &str, data: Json) -> (r: Segment)
        ensures
            r@ == (SegmentV { type_: type_@, data: data@ }),
    {
        Segment { type_: type_.to_owned(), data }
    }

    /// A copy of this segment.
    pub fn copy(&self) -> (r: Segment)
        ensures
            r@ == self@,
    {
        Segment { type_: self.type_.clone(), data: copy_json(&self.data) }
    }

    /// The segment a JSON value stands for, if it is one (see `segment_of`).
    pub fn from_json(j: &Json) -> (r: Option<Segment>)
        ensures
            match r {
                Some(s) => segment_of(j@) == Some(s@),
                None => segment_of(j@) is None,
            },
    {
        match j {
            Json::Object(_) => {
                let t = j.get("type");
                let d = j.get("data");
                match (t, d) {
                    (Some(t), Some(d)) => match t.as_str() {
                        Some(ts) => Some(Segment { type_: ts.to_owned(), data: copy_json(d) }),
                        None => None,
                    },
                    _ => None,
                }
            },
            Json::Array(a) => {
                proof { lemma_array_view(a@); }
                if a.len() == 2 {
                    match &a[0] {
                        Json::Str(t) => Some(Segment { type_: t.clone(), data: copy_json(&a[1]) }),
                        _ => None,
                    }
                } else {
                    None
                }
            },
            _ => None,
        }
    }
}

/// A text segment holding `text`.
pub fn text_segment(text: &str) -> (r: Segment)
    ensures
        r@ == text_seg(text@),
{
    Segment { type_: "text".to_owned(), data: json_object1("text", Json::string(text)) }
}

impl Message {
    /// The empty message.
    pub fn new() -> (r: Message)
        ensures
            r@ == Seq::<SegmentV>::empty(),
    {
        let r = Message(Vec::new());
        assert(r@ =~= Seq::<SegmentV>::empty());
        r
    }

    /// A message of one text segment.
    pub fn from_text(text: &str) -> (r: Message)
        ensures
            r@ == seq![text_seg(text@)],
    {
        let mut v: Vec<Segment> = Vec::new();
        v.push(text_segment(text));
        let r = Message(v);
        assert(r@ =~= seq![text_seg(text@)]);
        r
    }

    /// The number of segments.
    pub fn len(&self) -> (r: usize)
        ensures
            r == self@.len(),
    {
        self.0.len()
    }

    /// Appends a segment.
    pub fn push(&mut self, seg: Segment)
        ensures
            final(self)@ == old(self)@.push(seg@),
    {
        self.0.push(seg);
        assert(self@ =~= old(self)@.push(seg@));
    }

    /// Removes and returns the last segment (messages hand out their segments from the back).
    pub fn next(&mut self) -> (r: Option<Segment>)
        ensures
            old(self)@.len() == 0 ==> r is None && final(self)@ == old(self)@,
            old(self)@.len() > 0 ==> (r matches Some(s) && s@ == old(self)@.last()
                && final(self)@ == old(self)@.drop_last()),
    {
        let r = self.0.pop();
        assert(self@ =~= old(self)@.drop_last() || old(self)@.len() == 0);
        r
    }

    /// A copy of this message.
    pub fn copy(&self) -> (r: Message)
        ensures
            r@ == self@,
    {
        let mut v: Vec<Segment> = Vec::new();
        let mut i: usize = 0;
        while i < self.0.len()
            invariant
                0 <= i <= self@.len(),
                v@.len() == i,
                forall|k: int| 0 <= k < i ==> #[trigger] v@[k]@ == self.0@[k]@,
            decreases self@.len() - i,
        {
            v.push(self.0[i].copy());
            i = i + 1;
        }
        let r = Message(v);
        assert(r@ =~= self@);
        r
    }

    /// Whether some segment has type `s`.
    pub fn contains(&self, s: &str) -> (r: bool)
        ensures
            r == has_type(self@, s@),
    {
        let mut i: usize = 0;
        while i < self.0.len()
            invariant
                0 <= i <= self@.len(),
                forall|k: int| 0 <= k < i ==> self@[k].type_ != s@,
            decreases self@.len() - i,
        {
            if str_eq(self.0[i].type_.as_str(), s) {
                assert(self@[i as int].type_ == s@);
                return true;
            }
            i = i + 1;
        }
        false
    }

    /// Copies of the segments of type `s`, in order.
    pub fn get(&self, s: &str) -> (r: Vec<Segment>)
        ensures
            seg_views(r@) == of_type(self@, s@),
    {
        let mut out: Vec<Segment> = Vec::new();
        let mut i: usize = 0;
        while i < self.0.len()
            invariant
                0 <= i <= self@.len(),
                seg_views(out@) == of_type(self@.take(i as int), s@),
            decreases self@.len() - i,
        {
            assert(self@.take(i + 1).drop_last() =~= self@.take(i as int));
            if str_eq(self.0[i].type_.as_str(), s) {
                out.push(self.0[i].copy());
            }
            assert(seg_views(out@) =~= of_type(self@.take(i + 1), s@));
            i = i + 1;
        }
        assert(self@.take(self@.len() as int) =~= self@);
        out
    }

    /// The readable text of the message: texts as they are, other segments as `[type]`.
    pub fn to_human_string(&self) -> (r: String)
        ensures
            r@ == human_text(self@),
    {
        let mut result = String::new();
        let mut i: usize = 0;
        while i < self.0.len()
            invariant
                0 <= i <= self@.len(),
                result@ == human_text(self@.take(i as int)),
            decreases self@.len() - i,
        {
            assert(self@.take(i + 1).drop_last() =~= self@.take(i as int));
            let item = &self.0[i];
            if str_eq(item.type_.as_str(), "text") {
                match item.data.get("text") {
                    Some(t) => match t.as_str() {
                        Some(ts) => string_push_str(&mut result, ts),
                        None => {},
                    },
                    None => {},
                }
            } else {
                string_push_str(&mut result, "[");
                string_push_str(&mut result, item.type_.as_str());
                string_push_str(&mut result, "]");
            }
            assert(result@ =~= human_text(self@.take(i + 1)));
            i = i + 1;
        }
        assert(self@.take(self@.len() as int) =~= self@);
        result
    }

    /// The message of a list of JSON segment records; an error if one of them is not a segment.
    pub fn from_vec_segment_value(v: Vec<Json>) -> (r: Result<Message, MessageError>)
        ensures
            match r {
                Ok(m) => segments_of(json_views(v@)) == Some(m@),
                Err(e) => segments_of(json_views(v@)) is None
                    && (e matches MessageError::ParseError(t) && t@ == invalid_segment_text()),
            },
    {
        let ghost jv = json_views(v@);
        let mut out: Vec<Segment> = Vec::new();
        let mut i: usize = 0;
        while i < v.len()
            invariant
                0 <= i <= v@.len(),
                jv == json_views(v@),
                segments_of(jv.take(i as int)) == Some(seg_views(out@)),
            decreases v@.len() - i,
        {
            assert(jv.take(i + 1).drop_last() =~= jv.take(i as int));
            match Segment::from_json(&v[i]) {
                Some(s) => {
                    out.push(s);
                    assert(seg_views(out@) =~= segments_of(jv.take(i as int))->0.push(s@));
                },
                None => {
                    proof { lemma_segments_prefix_none(jv, i as int + 1); }
                    return Err(MessageError::ParseError("invalid segment".to_owned()));
                },
            }
            i = i + 1;
        }
        assert(jv.take(v@.len() as int) =~= jv);
        let m = Message(out);
        Ok(m)
    }

    /// The message that a JSON value stands for: a list of segment records, or a string as one
    /// text segment.
    pub fn from_value(v: Json) -> (r: Result<Message, MessageError>)
        ensures
            match v@ {
                JsonV::Array(a) => match segments_of(a) {
                    Some(s) => (r matches Ok(m) && m@ == s),
                    None => (r matches Err(MessageError::ParseError(t)) && t@ == invalid_segment_text()),
                },
                JsonV::Str(t) => (r matches Ok(m) && m@ == seq![text_seg(t)]),
                _ => (r matches Err(MessageError::ParseError(t)) && t@ == not_array_text()),
            },
    {
        match v {
            Json::Array(a) => {
                proof {
                    lemma_array_view(a@);
                    assert(array_view(a@) =~= json_views(a@));
                }
                Message::from_vec_segment_value(a)
            },
            Json::Str(s) => Ok(Message::from_text(s.as_str())),
            _ => Err(MessageError::ParseError("Message::from_value only accept array".to_owned())),
        }
    }

    /// The message with a text segment holding `text` added at the end.
    pub fn add_text(self, text: &str) -> (r: Message)
        ensures
            r@ == self@.push(text_seg(text@)),
    {
        let mut m = self;
        m.push(text_segment(text));
        m
    }

    /// The message with a mention of user `id` added at the end.
    pub fn add_at(self, id: &str) -> (r: Message)
        ensures
            r@ == self@.push(seg1("at"@, "qq"@, id@)),
    {
        let mut m = self;
        m.push(Segment { type_: "at".to_owned(), data: json_object1("qq", Json::string(id)) });
        m
    }

    /// The message with a quote of message `message_id` put in front.
    pub fn add_reply(self, message_id: i32) -> (r: Message)
        ensures
            r@ == seq![seg1("reply"@, "id"@, spec_decimal(message_id as int))] + self@,
    {
        let seg = Segment {
            type_: "reply".to_owned(),
            data: json_object1("id", Json::Str(decimal(message_id as i64))),
        };
        let mut v = self.0;
        v.insert(0, seg);
        let r = Message(v);
        assert(r@ =~= seq![seg1("reply"@, "id"@, spec_decimal(message_id as int))] + self@);
        r
    }

    /// The message with face `id` added at the end.
    pub fn add_face(self, id: i64) -> (r: Message)
        ensures
            r@ == self@.push(seg1("face"@, "id"@, spec_decimal(id as int))),
    {
        let mut m = self;
        m.push(Segment { type_: "face".to_owned(), data: json_object1("id", Json::Str(decimal(id))) });
        m
    }

    /// The message with image `file` added at the end.
    pub fn add_image(self, file: &str) -> (r: Message)
        ensures
            r@ == self@.push(seg1("image"@, "file"@, file@)),
    {
        let mut m = self;
        m.push(Segment { type_: "image".to_owned(), data: json_object1("file", Json::string(file)) });
        m
    }

    /// The message with the segment that `segment` stands for added at the end; unchanged when
    /// `segment` is not a segment record.
    pub fn add_segment(self, segment: Json) -> (r: Message)
        ensures
            match segment_of(segment@) {
                Some(s) => r@ == self@.push(s),
                None => r@ == self@,
            },
    {
        let mut m = self;
        match Segment::from_json(&segment) {
            Some(s) => m.push(s),
            None => {},
        }
        m
    }

    /// This message followed by the segments of `rhs`, which it takes from the back of `rhs`.
    pub fn concat(self, rhs: Message) -> (r: Message)
        ensures
            r@ == self@ + rhs@.reverse(),
    {
        let mut m = self;
        let mut rest = rhs;
        let ghost start = m@;
        let ghost whole = rest@;
        while rest.len() > 0
            invariant
                m@ == start + whole.reverse().take(whole.len() - rest@.len()),
                rest@ == whole.take(rest@.len() as int),
                rest@.len() <= whole.len(),
            decreases rest@.len(),
        {
            let ghost before = rest@;
            let seg = rest.next();
            match seg {
                Some(s) => {
                    m.push(s);
                    assert(whole.reverse().take(whole.len() - rest@.len()) =~=
                        whole.reverse().take(whole.len() - before.len()).push(before.last()));
                    assert(rest@ =~= whole.take(rest@.len() as int));
                },
                None => {},
            }
        }
        assert(whole.reverse().take(whole.len() as int) =~= whole.reverse());
        m
    }
}

proof fn lemma_segments_prefix_none(jv: Seq<JsonV>, n: int)
    requires
        0 < n <= jv.len(),
        segment_of(jv[n - 1]) is None,
    ensures
        segments_of(jv) is None,
    decreases jv.len(),
{
    if jv.len() > n {
        assert(jv.drop_last()[n - 1] == jv[n - 1]);
        lemma_segments_prefix_none(jv.drop_last(), n);
    }
}

impl std::ops::Add for Message {
    type Output = Message;

    /// `self` followed by the segments of `rhs`, taken from its back.
    fn add(self, rhs: Message) -> (r: Message)
        ensures
            r@ == self@ + rhs@.reverse(),
    {
        self.concat(rhs)
    }
}

impl vstd::std_specs::ops::AddSpecImpl for Message {
    open spec fn obeys_add_spec() -> bool {
        false
    }

    open spec fn add_req(self, rhs: Message) -> bool {
        true
    }

    open spec fn add_spec(self, rhs: Message) -> Message {
        self
    }
}

impl Default for Message {
    fn default() -> (r: Message)
        ensures
            r@ == Seq::<SegmentV>::empty(),
    {
        Message::new()
    }
}

impl From<&str> for Message {
    fn from(v: &str) -> (r: Message)
        ensures
            r@ == seq![text_seg(v@)],
    {
        Message::from_text(v)
    }
}

impl vstd::std_specs::convert::FromSpecImpl<&str> for Message {
    open spec fn obeys_from_spec() -> bool {
        false
    }

    open spec fn from_spec(v: &str) -> Message {
        vstd::pervasive::arbitrary()
    }
}

impl From<String> for Message {
    fn from(v: String) -> (r: Message)
        ensures
            r@ == seq![text_seg(v@)],
    {
        Message::from_text(v.as_str())
    }
}

impl vstd::std_specs::convert::FromSpecImpl<String> for Message {
    open spec fn obeys_from_spec() -> bool {
        false
    }

    open spec fn from_spec(v: String) -> Message {
        vstd::pervasive::arbitrary()
    }
}

impl From<&String> for Message {
    fn from(v: &String) -> (r: Message)
        ensures
            r@ == seq![text_seg(v@)],
    {
        Message::from_text(v.as_str())
    }
}

impl vstd::std_specs::convert::FromSpecImpl<&String> for Message {
    open spec fn obeys_from_spec() -> bool {
        false
    }

    open spec fn from_spec(v: &String) -> Message {
        vstd::pervasive::arbitrary()
    }
}

impl From<Vec<Segment>> for Message {
    fn from(v: Vec<Segment>) -> (r: Message)
        ensures
            r@ == seg_views(v@),
    {
        Message(v)
    }
}

impl vstd::std_specs::convert::FromSpecImpl<Vec<Segment>> for Message {
    open spec fn obeys_from_spec() -> bool {
        true
    }

    open spec fn from_spec(v: Vec<Segment>) -> Message {
        Message(v)
    }
}

impl From<Message> for Vec<Segment> {
    fn from(v: Message) -> (r: Vec<Segment>)
        ensures
            seg_views(r@) == v@,
    {
        v.0
    }
}

impl vstd::std_specs::convert::FromSpecImpl<Message> for Vec<Segment> {
    open spec fn obeys_from_spec() -> bool {
        true
    }

    open spec fn from_spec(v: Message) -> Vec<Segment> {
        v.0
    }
}

impl PartialEq for Segment {
    fn eq(&self, other: &Segment) -> (r: bool) {
        self.type_.eq(&other.type_) && json_eq(&self.data, &other.data)
    }
}

impl vstd::std_specs::cmp::PartialEqSpecImpl for Segment {
    open spec fn obeys_eq_spec() -> bool {
        true
    }

    open spec fn eq_spec(&self, other: &Segment) -> bool {
        self@ == other@
    }
}

impl PartialEq for Message {
    fn eq(&self, other: &Message) -> (r: bool) {
        if self.0.len() != other.0.len() {
            return false;
        }
        let mut i: usize = 0;
        while i < self.0.len()
            invariant
                0 <= i <= self@.len(),
                self@.len() == other@.len(),
                forall|k: int| 0 <= k < i ==> self@[k] == other@[k],
            decreases self@.len() - i,
        {
            if !(self.0[i].type_.eq(&other.0[i].type_) && json_eq(&self.0[i].data, &other.0[i].data)) {
                assert(self@[i as int] != other@[i as int]);
                return false;
            }
            i = i + 1;
        }
        assert(self@ =~= other@);
        true
    }
}

impl vstd::std_specs::cmp::PartialEqSpecImpl for Message {
    open spec fn obeys_eq_spec() -> bool {
        true
    }

    open spec fn eq_spec(&self, other: &Message) -> bool {
        self@ == other@
    }
}


/// A message holds a segment of a type exactly when asking for the segments of that type
/// gives at least one.
pub proof fn law_contains_iff_get_nonempty(s: Seq<SegmentV>, t: Seq<char>)
    ensures
        has_type(s, t) <==> of_type(s, t).len() > 0,
    decreases s.len(),
{
    if s.len() > 0 {
        law_contains_iff_get_nonempty(s.drop_last(), t);
        if has_type(s.drop_last(), t) {
            let i = choose|i: int| 0 <= i < s.drop_last().len() && s.drop_last()[i].type_ == t;
            assert(s[i].type_ == t);
        }
        if has_type(s, t) && s.last().type_ != t {
            let i = choose|i: int| 0 <= i < s.len() && s[i].type_ == t;
            assert(s.drop_last()[i].type_ == t);
        }
    }
}

/// The segments of a type, asked for, all have that type, and none of the message's
/// segments of that type is left out.
pub proof fn law_get_gives_that_type(s: Seq<SegmentV>, t: Seq<char>)
    ensures
        forall|i: int| 0 <= i < of_type(s, t).len() ==> (#[trigger] of_type(s, t)[i]).type_ == t,
        of_type(s, t).len() == s.filter(|x: SegmentV| x.type_ == t).len(),
    decreases s.len(),
{
    reveal(Seq::filter);
    if s.len() > 0 {
        law_get_gives_that_type(s.drop_last(), t);
        assert(s.drop_last().filter(|x: SegmentV| x.type_ == t) == s.filter(|x: SegmentV| x.type_ == t).take(
            s.drop_last().filter(|x: SegmentV| x.type_ == t).len() as int)) by {
            assert(s.filter(|x: SegmentV| x.type_ == t) == if s.last().type_ == t {
                s.drop_last().filter(|x: SegmentV| x.type_ == t).push(s.last())
            } else {
                s.drop_last().filter(|x: SegmentV| x.type_ == t)
            });
        }
    }
}

/// The readable text of two messages joined is the readable text of the first followed by
/// that of the second.
pub proof fn law_human_text_concat(a: Seq<SegmentV>, b: Seq<SegmentV>)
    ensures
        human_text(a + b) == human_text(a) + human_text(b),
    decreases b.len(),
{
    if b.len() == 0 {
        assert(a + b =~= a);
        assert(human_text(b) =~= Seq::<char>::empty());
        assert(human_text(a) + human_text(b) =~= human_text(a));
    } else {
        law_human_text_concat(a, b.drop_last());
        assert((a + b).drop_last() =~= a + b.drop_last());
        assert((a + b).last() == b.last());
        assert(human_text(a + b) =~= human_text(a) + human_text(b));
    }
}

/// The readable text of a message of one text segment is that text.
pub proof fn law_human_text_of_text(t: Seq<char>)
    ensures
        human_text(seq![text_seg(t)]) == t,
{
    let s = seq![text_seg(t)];
    assert(s.drop_last() =~= Seq::<SegmentV>::empty());
    let es = seq![("text"@, JsonV::Str(t))];
    assert(crate::json::first_key_at(es, "text"@, 0));
    assert(crate::json::key_index(es, "text"@) == Some(0int));
    assert(human_seg(text_seg(t)) == t);
    assert(s.last() == text_seg(t));
    assert(human_text(s.drop_last()) == Seq::<char>::empty());
    assert(human_text(s) == human_text(s.drop_last()) + human_seg(s.last()));
    assert(Seq::<char>::empty() + t =~= t);
}


/// A list of JSON values reads as a message exactly when each value reads as a segment, and
/// then the message has as many segments as the list has values, the `i`-th read from the
/// `i`-th value.
pub proof fn law_segments_keep_positions(v: Seq<JsonV>)
    ensures
        segments_of(v) is Some <==> (forall|i: int| 0 <= i < v.len() ==> #[trigger] segment_of(v[i]) is Some),
        segments_of(v) is Some ==> segments_of(v)->0.len() == v.len(),
        segments_of(v) is Some ==> forall|i: int| 0 <= i < v.len() ==> Some(#[trigger] segments_of(v)->0[i]) == segment_of(v[i]),
    decreases v.len(),
{
    if v.len() > 0 {
        let d = v.drop_last();
        law_segments_keep_positions(d);
        assert forall|i: int| 0 <= i < d.len() implies #[trigger] d[i] == v[i] by {}
        if forall|i: int| 0 <= i < v.len() ==> #[trigger] segment_of(v[i]) is Some {
            assert forall|i: int| 0 <= i < d.len() implies #[trigger] segment_of(d[i]) is Some by {
                assert(segment_of(v[i]) is Some);
            }
            assert(segment_of(v[v.len() - 1]) is Some);
        }
        if segments_of(v) is None {
            if segment_of(v.last()) is Some {
                assert(segments_of(d) is None);
                assert(!(forall|i: int| 0 <= i < d.len() ==> #[trigger] segment_of(d[i]) is Some));
                let i = choose|i: int| 0 <= i < d.len() && !(segment_of(d[i]) is Some);
                assert(segment_of(v[i]) is None);
            } else {
                assert(segment_of(v[v.len() - 1]) is None);
            }
        } else {
            let s = segments_of(d)->0;
            assert(segments_of(d) is Some && segment_of(v.last()) is Some);
            assert forall|i: int| 0 <= i < v.len() implies #[trigger] segment_of(v[i]) is Some by {
                if i < d.len() {
                    assert(segment_of(d[i]) is Some);
                }
            }
            assert forall|i: int| 0 <= i < v.len() implies Some(#[trigger] segments_of(v)->0[i]) == segment_of(v[i]) by {
                if i < d.len() {
                    assert(Some(s[i]) == segment_of(d[i]));
                }
            }
        }
    }
}

} // verus!
