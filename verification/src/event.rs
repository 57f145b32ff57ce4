//! Events that the OneBot server reports: messages and requests.
use vstd::prelude::*;
use crate::api::{SendApi, SendApiV, kv_views, object_from, message_json, message_json_view};
use crate::cq::{CQMessage, cq_to_arr, cq_segs};
use crate::error::EventBuildError;
use crate::json::{Json, JsonV, obj_from, lemma_array_view, array_view};
use crate::message::{Message, SegmentV, human_text, segments_of, json_views, copy_json, seg1};
use crate::text::{join, join_strings, spec_trim, trim, spec_decimal};

verus! {

/// The sex a sender reports.
#[derive(Debug, Clone, Copy, PartialEq, Eq)]
pub enum Sex {
    Male,
    Female,
}

/// The mathematical value of a sender.
pub struct SenderV {
    pub user_id: int,
    pub nickname: Option<Seq<char>>,
    pub card: Option<Seq<char>>,
    pub sex: Option<Sex>,
    pub age: Option<int>,
    pub area: Option<Seq<char>>,
    pub level: Option<Seq<char>>,
    pub role: Option<Seq<char>>,
    pub title: Option<Seq<char>>,
}

/// Who sent a message.
#[derive(Debug)]
pub struct Sender {
    pub user_id: i64,
    pub nickname: Option<String>,
    pub card: Option<String>,
    pub sex: Option<Sex>,
    pub age: Option<i32>,
    pub area: Option<String>,
    pub level: Option<String>,
    pub role: Option<String>,
    pub title: Option<String>,
}

/// The text of an optional string.
pub open spec fn opt_str(o: Option<String>) -> Option<Seq<char>> {
    match o {
        Some(s) => Some(s@),
        None => None,
    }
}

impl View for Sender {
    type V = SenderV;

    open spec fn view(&self) -> SenderV {
        SenderV {
            user_id: self.user_id as int,
            nickname: opt_str(self.nickname),
            card: opt_str(self.card),
            sex: self.sex,
            age: match self.age {
                Some(a) => Some(a as int),
                None => None,
            },
            area: opt_str(self.area),
            level: opt_str(self.level),
            role: opt_str(self.role),
            title: opt_str(self.title),
        }
    }
}

/// The mathematical value of an anonymous sender.
pub struct AnonymousV {
    pub id: int,
    pub name: Seq<char>,
    pub flag: Seq<char>,
}

/// The anonymous identity a group message was sent under.
#[derive(Debug)]
pub struct Anonymous {
    pub id: i64,
    pub name: String,
    pub flag: String,
}

impl View for Anonymous {
    type V = AnonymousV;

    open spec fn view(&self) -> AnonymousV {
        AnonymousV { id: self.id as int, name: self.name@, flag: self.flag@ }
    }
}

/// The anonymous identity a JSON value stands for, as the record format reads it: an object
/// with an integer `id` and string `name` and `flag`, or the array `[id, name, flag]`.
pub open spec fn anonymous_of(j: JsonV) -> Option<AnonymousV> {
    match j {
        JsonV::Object(_) => match (
            JsonV::i64_of(j.get("id"@)),
            JsonV::str_of(j.get("name"@)),
            JsonV::str_of(j.get("flag"@)),
        ) {
            (Some(i), Some(n), Some(f)) => Some(AnonymousV { id: i, name: n, flag: f }),
            _ => None,
        },
        JsonV::Array(a) => if a.len() == 3 && a[0] is Int && a[1] is Str && a[2] is Str {
            Some(AnonymousV { id: a[0]->Int_0, name: a[1]->Str_0, flag: a[2]->Str_0 })
        } else {
            None
        },
        _ => None,
    }
}

/// The sex a sender's `sex` entry gives.
pub open spec fn sex_of(o: Option<Seq<char>>) -> Option<Sex> {
    match o {
        Some(s) => if s == "male"@ {
            Some(Sex::Male)
        } else if s == "female"@ {
            Some(Sex::Female)
        } else {
            None
        },
        None => None,
    }
}

/// The sender a `sender` object gives, given its user id.
pub open spec fn sender_of(s: JsonV, user_id: int) -> SenderV {
    SenderV {
        user_id,
        nickname: JsonV::str_of(s.get("nickname"@)),
        card: JsonV::str_of(s.get("card"@)),
        sex: sex_of(JsonV::str_of(s.get("sex"@))),
        age: match JsonV::i64_of(s.get("age"@)) {
            Some(a) => Some((a as i64) as i32 as int),
            None => None,
        },
        area: JsonV::str_of(s.get("area"@)),
        level: JsonV::str_of(s.get("level"@)),
        role: JsonV::str_of(s.get("role"@)),
        title: JsonV::str_of(s.get("title"@)),
    }
}

/// The texts of the text segments that hold a string, in order.
pub open spec fn texts_of(s: Seq<SegmentV>) -> Seq<Seq<char>>
    decreases s.len(),
{
    if s.len() == 0 {
        Seq::empty()
    } else {
        let r = texts_of(s.drop_last());
        match s.last().data.get("text"@) {
            Some(JsonV::Str(t)) => if s.last().type_ == "text"@ {
                r.push(t)
            } else {
                r
            },
            _ => r,
        }
    }
}

/// The plain text of a message: its texts joined by line breaks and trimmed; `None` when it has
/// no text.
pub open spec fn plain_text(s: Seq<SegmentV>) -> Option<Seq<char>> {
    let ts = texts_of(s);
    if ts.len() > 0 {
        Some(spec_trim(join(ts, "\n"@)))
    } else {
        None
    }
}

/// The mathematical value of a message event.
pub struct MsgEventV {
    pub time: int,
    pub self_id: int,
    pub post_type: Seq<char>,
    pub message_type: Seq<char>,
    pub sub_type: Seq<char>,
    pub message: Seq<SegmentV>,
    pub message_id: int,
    pub group_id: Option<int>,
    pub user_id: int,
    pub anonymous: Option<AnonymousV>,
    pub raw_message: Seq<char>,
    pub font: int,
    pub sender: SenderV,
    pub text: Option<Seq<char>>,
    pub human_text: Seq<char>,
    pub original_json: JsonV,
}

/// A message event.
#[derive(Debug)]
pub struct MsgEvent {
    /// When the event happened.
    pub time: i64,
    /// The account of the bot that received it.
    pub self_id: i64,
    /// The kind of report.
    pub post_type: String,
    /// `private` or `group`.
    pub message_type: String,
    /// For a private message, `friend` or `group` (a temporary chat).
    pub sub_type: String,
    /// The message.
    pub message: Message,
    pub message_id: i32,
    pub group_id: Option<i64>,
    /// The account of the sender.
    pub user_id: i64,
    /// The anonymous identity, for an anonymous message.
    pub anonymous: Option<Anonymous>,
    /// The message as the server wrote it.
    pub raw_message: String,
    pub font: i32,
    pub sender: Sender,
    /// The message's texts joined by line breaks and trimmed; `None` when it has none.
    pub text: Option<String>,
    /// The readable form of the message (see `Message::to_human_string`).
    pub human_text: String,
    /// The whole event as it was reported.
    pub original_json: Json,
}

impl View for MsgEvent {
    type V = MsgEventV;

    open spec fn view(&self) -> MsgEventV {
        MsgEventV {
            time: self.time as int,
            self_id: self.self_id as int,
            post_type: self.post_type@,
            message_type: self.message_type@,
            sub_type: self.sub_type@,
            message: self.message@,
            message_id: self.message_id as int,
            group_id: match self.group_id {
                Some(g) => Some(g as int),
                None => None,
            },
            user_id: self.user_id as int,
            anonymous: match self.anonymous {
                Some(a) => Some(a@),
                None => None,
            },
            raw_message: self.raw_message@,
            font: self.font as int,
            sender: self.sender@,
            text: opt_str(self.text),
            human_text: self.human_text@,
            original_json: self.original_json@,
        }
    }
}

/// The segments of an event's `message` entry: a list of segment records, or a CQ string.
pub open spec fn event_message(j: JsonV) -> Result<Seq<SegmentV>, Seq<char>> {
    match j.get("message"@) {
        Some(JsonV::Array(a)) => match segments_of(a) {
            Some(s) => Ok(s),
            None => Err("Parse error: invalid segment"@),
        },
        Some(JsonV::Str(s)) => Ok(cq_segs(s, 0)),
        _ => Err("Invalid message string"@),
    }
}

/// The anonymous entry of an event: none when it is missing or null.
pub open spec fn event_anonymous(j: JsonV) -> Result<Option<AnonymousV>, Seq<char>> {
    match j.get("anonymous"@) {
        None => Ok(None),
        Some(JsonV::Null) => Ok(None),
        Some(a) => match anonymous_of(a) {
            Some(x) => Ok(Some(x)),
            None => Err("Invalid anonymous field"@),
        },
    }
}

/// The message event a JSON document reports, or the text of the first problem found: the
/// document must be an object with a `sender` object whose `user_id` is an integer, a readable
/// `message` and `anonymous`, integer `time`, `self_id`, `message_id`, `user_id`, `font` and
/// string `post_type`, `message_type`, `sub_type`, `raw_message`.
pub open spec fn msg_event_of(j: JsonV) -> Result<MsgEventV, Seq<char>> {
    if !(j is Object) {
        Err("Invalid JSON object"@)
    } else if !(j.get("sender"@) matches Some(JsonV::Object(_))) {
        Err("Invalid sender object"@)
    } else if JsonV::i64_of(j.get("sender"@)->0.get("user_id"@)) is None {
        Err("Invalid user_id"@)
    } else {
        let sender = sender_of(j.get("sender"@)->0, JsonV::i64_of(j.get("sender"@)->0.get("user_id"@))->0);
        match event_message(j) {
            Err(e) => Err(e),
            Ok(message) => match event_anonymous(j) {
                Err(e) => Err(e),
                Ok(anonymous) => {
                    let time = JsonV::i64_of(j.get("time"@));
                    let self_id = JsonV::i64_of(j.get("self_id"@));
                    let post_type = JsonV::str_of(j.get("post_type"@));
                    let message_type = JsonV::str_of(j.get("message_type"@));
                    let sub_type = JsonV::str_of(j.get("sub_type"@));
                    let message_id = JsonV::i64_of(j.get("message_id"@));
                    let user_id = JsonV::i64_of(j.get("user_id"@));
                    let raw_message = JsonV::str_of(j.get("raw_message"@));
                    let font = JsonV::i64_of(j.get("font"@));
                    if time is None {
                        Err("Invalid time"@)
                    } else if self_id is None {
                        Err("Invalid self_id"@)
                    } else if post_type is None {
                        Err("Invalid post_type"@)
                    } else if message_type is None {
                        Err("Invalid message_type"@)
                    } else if sub_type is None {
                        Err("Invalid sub_type"@)
                    } else if message_id is None {
                        Err("Invalid message_id"@)
                    } else if user_id is None {
                        Err("Invalid user_id"@)
                    } else if raw_message is None {
                        Err("Invalid raw_message"@)
                    } else if font is None {
                        Err("Invalid font"@)
                    } else {
                        Ok(MsgEventV {
                            time: time->0,
                            self_id: self_id->0,
                            post_type: post_type->0,
                            message_type: message_type->0,
                            sub_type: sub_type->0,
                            message,
                            message_id: (message_id->0 as i64) as i32 as int,
                            group_id: JsonV::i64_of(j.get("group_id"@)),
                            user_id: user_id->0,
                            anonymous,
                            raw_message: raw_message->0,
                            font: (font->0 as i64) as i32 as int,
                            sender,
                            text: plain_text(message),
                            human_text: human_text(message),
                            original_json: j,
                        })
                    }
                },
            },
        }
    }
}

/// The integer under `key`, if it is an integer.
fn get_i64(j: &Json, key: &str) -> (r: Option<i64>)
    ensures
        match r {
            Some(i) => JsonV::i64_of(j@.get(key@)) == Some(i as int),
            None => JsonV::i64_of(j@.get(key@)) is None,
        },
{
    match j.get(key) {
        Some(v) => v.as_i64(),
        None => None,
    }
}

/// The text under `key`, if it is a string.
fn get_string(j: &Json, key: &str) -> (r: Option<String>)
    ensures
        opt_str(r) == JsonV::str_of(j@.get(key@)),
{
    match j.get(key) {
        Some(v) => match v.as_str() {
            Some(s) => Some(s.to_owned()),
            None => None,
        },
        None => None,
    }
}

/// An error with the given text.
fn parse_error(text: &str) -> (r: EventBuildError)
    ensures
        r matches EventBuildError::ParseError(s) && s@ == text@,
{
    EventBuildError::ParseError(text.to_owned())
}

impl Anonymous {
    /// The anonymous identity a JSON value stands for (see `anonymous_of`).
    pub fn from_json(j: &Json) -> (r: Option<Anonymous>)
        ensures
            match r {
                Some(a) => anonymous_of(j@) == Some(a@),
                None => anonymous_of(j@) is None,
            },
    {
        match j {
            Json::Object(_) => {
                let id = get_i64(j, "id");
                let name = get_string(j, "name");
                let flag = get_string(j, "flag");
                match (id, name, flag) {
                    (Some(i), Some(n), Some(f)) => Some(Anonymous { id: i, name: n, flag: f }),
                    _ => None,
                }
            },
            Json::Array(a) => {
                proof { lemma_array_view(a@); }
                if a.len() == 3 {
                    match (&a[0], &a[1], &a[2]) {
                        (Json::Int(i), Json::Str(n), Json::Str(f)) => Some(Anonymous { id: *i, name: n.clone(), flag: f.clone() }),
                        _ => None,
                    }
                } else {
                    None
                }
            },
            _ => None,
        }
    }
}

/// The texts of the text segments of a message that hold a string, in order.
fn message_texts(m: &Message) -> (r: Vec<String>)
    ensures
        Seq::new(r@.len(), |i: int| r@[i]@) == texts_of(m@),
{
    let mut out: Vec<String> = Vec::new();
    let mut i: usize = 0;
    while i < m.0.len()
        invariant
            0 <= i <= m@.len(),
            Seq::new(out@.len(), |k: int| out@[k]@) == texts_of(m@.take(i as int)),
        decreases m@.len() - i,
    {
        assert(m@.take(i + 1).drop_last() =~= m@.take(i as int));
        assert(m@.take(i + 1).last() == m.0@[i as int]@);
        let seg = &m.0[i];
        if crate::json::str_eq(seg.type_.as_str(), "text") {
            match seg.data.get("text") {
                Some(Json::Str(t)) => {
                    out.push(t.clone());
                },
                _ => {},
            }
        }
        assert(Seq::new(out@.len(), |k: int| out@[k]@) =~= texts_of(m@.take(i + 1)));
        i = i + 1;
    }
    assert(m@.take(m@.len() as int) =~= m@);
    out
}

impl MsgEvent {
    /// The message event that a JSON document reports (see `msg_event_of`).
    pub fn new(json: Json) -> (r: Result<MsgEvent, EventBuildError>)
        ensures
            match msg_event_of(json@) {
                Ok(e) => (r matches Ok(x) && x@ == e),
                Err(t) => (r matches Err(EventBuildError::ParseError(s)) && s@ == t),
            },
    {
        match &json {
            Json::Object(_) => {},
            _ => return Err(parse_error("Invalid JSON object")),
        }
        let sender_json = match json.get("sender") {
            Some(s) => match s {
                Json::Object(_) => s,
                _ => return Err(parse_error("Invalid sender object")),
            },
            None => return Err(parse_error("Invalid sender object")),
        };
        let sender_id = match get_i64(sender_json, "user_id") {
            Some(i) => i,
            None => return Err(parse_error("Invalid user_id")),
        };
        let sex = match get_string(sender_json, "sex") {
            Some(s) => if crate::json::str_eq(s.as_str(), "male") {
                Some(Sex::Male)
            } else if crate::json::str_eq(s.as_str(), "female") {
                Some(Sex::Female)
            } else {
                None
            },
            None => None,
        };
        let age = match get_i64(sender_json, "age") {
            Some(a) => Some(a as i32),
            None => None,
        };
        let sender = Sender {
            user_id: sender_id,
            nickname: get_string(sender_json, "nickname"),
            card: get_string(sender_json, "card"),
            sex,
            age,
            area: get_string(sender_json, "area"),
            level: get_string(sender_json, "level"),
            role: get_string(sender_json, "role"),
            title: get_string(sender_json, "title"),
        };
        let group_id = get_i64(&json, "group_id");
        let message = match json.get("message") {
            Some(Json::Array(a)) => {
                let mut v: Vec<Json> = Vec::new();
                let mut i: usize = 0;
                while i < a.len()
                    invariant
                        0 <= i <= a@.len(),
                        v@.len() == i,
                        forall|k: int| 0 <= k < i ==> #[trigger] v@[k]@ == a@[k]@,
                    decreases a@.len() - i,
                {
                    v.push(copy_json(&a[i]));
                    i = i + 1;
                }
                proof {
                    lemma_array_view(a@);
                    assert(json_views(v@) =~= array_view(a@));
                }
                match Message::from_vec_segment_value(v) {
                    Ok(m) => m,
                    Err(_) => return Err(parse_error("Parse error: invalid segment")),
                }
            },
            Some(Json::Str(s)) => cq_to_arr(CQMessage(s.clone())),
            _ => return Err(parse_error("Invalid message string")),
        };
        let anonymous = match json.get("anonymous") {
            None => None,
            Some(Json::Null) => None,
            Some(a) => match Anonymous::from_json(a) {
                Some(x) => Some(x),
                None => return Err(parse_error("Invalid anonymous field")),
            },
        };
        let texts = message_texts(&message);
        let text = if texts.len() > 0 {
            let joined = join_strings(&texts, "\n");
            Some(trim(joined.as_str()))
        } else {
            None
        };
        let human = message.to_human_string();
        let time = match get_i64(&json, "time") {
            Some(v) => v,
            None => return Err(parse_error("Invalid time")),
        };
        let self_id = match get_i64(&json, "self_id") {
            Some(v) => v,
            None => return Err(parse_error("Invalid self_id")),
        };
        let post_type = match get_string(&json, "post_type") {
            Some(v) => v,
            None => return Err(parse_error("Invalid post_type")),
        };
        let message_type = match get_string(&json, "message_type") {
            Some(v) => v,
            None => return Err(parse_error("Invalid message_type")),
        };
        let sub_type = match get_string(&json, "sub_type") {
            Some(v) => v,
            None => return Err(parse_error("Invalid sub_type")),
        };
        let message_id = match get_i64(&json, "message_id") {
            Some(v) => v as i32,
            None => return Err(parse_error("Invalid message_id")),
        };
        let user_id = match get_i64(&json, "user_id") {
            Some(v) => v,
            None => return Err(parse_error("Invalid user_id")),
        };
        let raw_message = match get_string(&json, "raw_message") {
            Some(v) => v,
            None => return Err(parse_error("Invalid raw_message")),
        };
        let font = match get_i64(&json, "font") {
            Some(v) => v as i32,
            None => return Err(parse_error("Invalid font")),
        };
        Ok(MsgEvent {
            time,
            self_id,
            post_type,
            message_type,
            sub_type,
            message,
            message_id,
            group_id,
            user_id,
            anonymous,
            raw_message,
            font,
            sender,
            text,
            human_text: human,
            original_json: json,
        })
    }
}

/// The request that answers a message event with `message`: a `send_msg` to the sender's
/// private chat when the event has no group, else to its group, tagged `"None"` (no reply
/// awaited).
pub open spec fn reply_request(e: MsgEventV, message: JsonV, auto_escape: bool) -> SendApiV {
    SendApiV {
        action: "send_msg"@,
        params: JsonV::Object(
            match e.group_id {
                None => obj_from(seq![
                    ("message_type"@, JsonV::Str("private"@)),
                    ("user_id"@, JsonV::Int(e.user_id)),
                    ("message"@, message),
                    ("auto_escape"@, JsonV::Bool(auto_escape)),
                ]),
                Some(g) => obj_from(seq![
                    ("message_type"@, JsonV::Str("group"@)),
                    ("group_id"@, JsonV::Int(g)),
                    ("message"@, message),
                    ("auto_escape"@, JsonV::Bool(auto_escape)),
                ]),
            },
        ),
        echo: "None"@,
    }
}

impl MsgEvent {
    /// The entry `key` of the event as it was reported.
    pub fn get(&self, key: &str) -> (r: Option<&Json>)
        ensures
            match r {
                Some(j) => self@.original_json.get(key@) == Some(j@),
                None => self@.original_json.get(key@) is None,
            },
    {
        self.original_json.get(key)
    }

    /// The entry `key` of the event as it was reported, `null` when it has none.
    pub fn index(&self, key: &str) -> (r: Json)
        ensures
            r@ == match self@.original_json.get(key@) {
                Some(v) => v,
                None => JsonV::Null,
            },
    {
        match self.original_json.get(key) {
            Some(v) => crate::message::copy_json(v),
            None => Json::Null,
        }
    }

    /// The plain text of the message, empty when it has none.
    pub fn get_text(&self) -> (r: String)
        ensures
            r@ == match self@.text {
                Some(t) => t,
                None => Seq::empty(),
            },
    {
        match &self.text {
            Some(t) => t.clone(),
            None => String::new(),
        }
    }

    /// The sender's nickname, empty when it has none.
    pub fn get_sender_nickname(&self) -> (r: String)
        ensures
            r@ == match self@.sender.nickname {
                Some(t) => t,
                None => Seq::empty(),
            },
    {
        match &self.sender.nickname {
            Some(t) => t.clone(),
            None => String::new(),
        }
    }

    /// The plain text of the message, borrowed.
    pub fn borrow_text(&self) -> (r: Option<&str>)
        ensures
            match r {
                Some(t) => self@.text == Some(t@),
                None => self@.text is None,
            },
    {
        match &self.text {
            Some(t) => Some(t.as_str()),
            None => None,
        }
    }

    /// Whether the message came from a group.
    pub fn is_group(&self) -> (r: bool)
        ensures
            r == (self@.group_id is Some),
    {
        self.group_id.is_some()
    }

    /// Whether the message came from a private chat.
    pub fn is_private(&self) -> (r: bool)
        ensures
            r == (self@.group_id is None),
    {
        self.group_id.is_none()
    }

    /// The request that answers this event with `message` (its JSON form).
    pub fn reply_builder(&self, message: Json, auto_escape: bool) -> (r: SendApi)
        ensures
            r@ == reply_request(self@, message@, auto_escape),
    {
        let mut kvs: Vec<(String, Json)> = Vec::new();
        let ghost m = message@;
        match self.group_id {
            None => {
                kvs.push(("message_type".to_owned(), Json::string("private")));
                kvs.push(("user_id".to_owned(), Json::Int(self.user_id)));
                kvs.push(("message".to_owned(), message));
                kvs.push(("auto_escape".to_owned(), Json::Bool(auto_escape)));
                assert(kv_views(kvs@) =~= seq![
                    ("message_type"@, JsonV::Str("private"@)),
                    ("user_id"@, JsonV::Int(self.user_id as int)),
                    ("message"@, m),
                    ("auto_escape"@, JsonV::Bool(auto_escape)),
                ]);
            },
            Some(g) => {
                kvs.push(("message_type".to_owned(), Json::string("group")));
                kvs.push(("group_id".to_owned(), Json::Int(g)));
                kvs.push(("message".to_owned(), message));
                kvs.push(("auto_escape".to_owned(), Json::Bool(auto_escape)));
                assert(kv_views(kvs@) =~= seq![
                    ("message_type"@, JsonV::Str("group"@)),
                    ("group_id"@, JsonV::Int(g as int)),
                    ("message"@, m),
                    ("auto_escape"@, JsonV::Bool(auto_escape)),
                ]);
            },
        }
        SendApi::new("send_msg", object_from(kvs), "None")
    }

    /// The request that answers this event with `message`.
    pub fn reply_request(&self, message: &Message) -> (r: SendApi)
        ensures
            r@ == reply_request(self@, message_json_view(message@), false),
    {
        self.reply_builder(message_json(message), false)
    }

    /// The request that answers this event with `message`, quoting the event's message.
    pub fn reply_and_quote_request(&self, message: Message) -> (r: SendApi)
        ensures
            r@ == reply_request(
                self@,
                message_json_view(seq![seg1("reply"@, "id"@, spec_decimal(self@.message_id))] + message@),
                false,
            ),
    {
        let m = message.add_reply(self.message_id);
        self.reply_builder(message_json(&m), false)
    }

    /// The request that answers this event with `text`, which the server sends as it is.
    pub fn reply_text_request(&self, text: &str) -> (r: SendApi)
        ensures
            r@ == reply_request(self@, JsonV::Str(text@), true),
    {
        self.reply_builder(Json::string(text), true)
    }
}

/// The mathematical value of a request event.
pub struct RequestEventV {
    pub time: int,
    pub self_id: int,
    pub post_type: Seq<char>,
    pub request_type: Seq<char>,
    pub original_json: JsonV,
}

/// A request event (a friend or group request).
#[derive(Debug)]
pub struct RequestEvent {
    /// When the event happened.
    pub time: i64,
    /// The account of the bot that received it.
    pub self_id: i64,
    /// The kind of report.
    pub post_type: String,
    /// The kind of request.
    pub request_type: String,
    /// The whole event as it was reported.
    pub original_json: Json,
}

impl View for RequestEvent {
    type V = RequestEventV;

    open spec fn view(&self) -> RequestEventV {
        RequestEventV {
            time: self.time as int,
            self_id: self.self_id as int,
            post_type: self.post_type@,
            request_type: self.request_type@,
            original_json: self.original_json@,
        }
    }
}

/// The request event a JSON document reports, or the name of the first entry that is missing
/// or of the wrong kind (integer `time`, `self_id`; string `post_type`, `request_type`).
pub open spec fn request_event_of(j: JsonV) -> Result<RequestEventV, Seq<char>> {
    let time = JsonV::i64_of(j.get("time"@));
    let self_id = JsonV::i64_of(j.get("self_id"@));
    let post_type = JsonV::str_of(j.get("post_type"@));
    let request_type = JsonV::str_of(j.get("request_type"@));
    if time is None {
        Err("time"@)
    } else if self_id is None {
        Err("self_id"@)
    } else if post_type is None {
        Err("post_type"@)
    } else if request_type is None {
        Err("request_type"@)
    } else {
        Ok(RequestEventV {
            time: time->0,
            self_id: self_id->0,
            post_type: post_type->0,
            request_type: request_type->0,
            original_json: j,
        })
    }
}

impl RequestEvent {
    /// The request event that a JSON document reports (see `request_event_of`).
    pub fn new(json: Json) -> (r: Result<RequestEvent, EventBuildError>)
        ensures
            match request_event_of(json@) {
                Ok(e) => (r matches Ok(x) && x@ == e),
                Err(t) => (r matches Err(EventBuildError::ParseError(s)) && s@ == t),
            },
    {
        let time = match get_i64(&json, "time") {
            Some(v) => v,
            None => return Err(parse_error("time")),
        };
        let self_id = match get_i64(&json, "self_id") {
            Some(v) => v,
            None => return Err(parse_error("self_id")),
        };
        let post_type = match get_string(&json, "post_type") {
            Some(v) => v,
            None => return Err(parse_error("post_type")),
        };
        let request_type = match get_string(&json, "request_type") {
            Some(v) => v,
            None => return Err(parse_error("request_type")),
        };
        Ok(RequestEvent { time, self_id, post_type, request_type, original_json: json })
    }

    /// The entry `key` of the event as it was reported.
    pub fn get(&self, key: &str) -> (r: Option<&Json>)
        ensures
            match r {
                Some(j) => self@.original_json.get(key@) == Some(j@),
                None => self@.original_json.get(key@) is None,
            },
    {
        self.original_json.get(key)
    }

    /// The entry `key` of the event as it was reported, `null` when it has none.
    pub fn index(&self, key: &str) -> (r: Json)
        ensures
            r@ == match self@.original_json.get(key@) {
                Some(v) => v,
                None => JsonV::Null,
            },
    {
        match self.original_json.get(key) {
            Some(v) => crate::message::copy_json(v),
            None => Json::Null,
        }
    }
}


/// The texts of two messages one after the other are the texts of the first, then those of the
/// second.
pub proof fn law_texts_concat(a: Seq<SegmentV>, b: Seq<SegmentV>)
    ensures
        texts_of(a + b) == texts_of(a) + texts_of(b),
    decreases b.len(),
{
    if b.len() == 0 {
        assert(a + b =~= a);
        assert(texts_of(a) + texts_of(b) =~= texts_of(a));
    } else {
        law_texts_concat(a, b.drop_last());
        assert((a + b).drop_last() =~= a + b.drop_last());
        assert((a + b).last() == b.last());
        assert(texts_of(a + b) =~= texts_of(a) + texts_of(b));
    }
}

/// A text segment contributes its text, a segment of another type nothing.
pub proof fn law_texts_of_one(t: Seq<char>, x: SegmentV)
    ensures
        texts_of(seq![crate::message::text_seg(t)]) == seq![t],
        x.type_ != "text"@ ==> texts_of(seq![x]) == Seq::<Seq<char>>::empty(),
{
    reveal_strlit("text");
    let es = seq![("text"@, JsonV::Str(t))];
    assert(crate::json::first_key_at(es, "text"@, 0));
    assert(crate::json::key_index(es, "text"@) == Some(0int));
    let ts = crate::message::text_seg(t);
    assert(ts.data == JsonV::Object(es));
    assert(ts.data.get("text"@) == Some(JsonV::Str(t)));
    let s1 = seq![ts];
    assert(s1.drop_last() =~= Seq::<SegmentV>::empty());
    assert(texts_of(s1.drop_last()) == Seq::<Seq<char>>::empty());
    assert(s1.last() == ts);
    assert(texts_of(s1) == Seq::<Seq<char>>::empty().push(t));
    assert(seq![t] =~= Seq::<Seq<char>>::empty().push(t));
    let s2 = seq![x];
    assert(s2.drop_last() =~= Seq::<SegmentV>::empty());
    assert(texts_of(s2.drop_last()) == Seq::<Seq<char>>::empty());
    assert(s2.last() == x);
}


/// The plain text of a message of a text, a segment of another type and a text is the two
/// texts in message order, joined by a line break and trimmed.
pub proof fn law_plain_text_in_order(a: Seq<char>, x: SegmentV, b: Seq<char>)
    requires
        x.type_ != "text"@,
    ensures
        plain_text(seq![crate::message::text_seg(a), x, crate::message::text_seg(b)]) == Some(spec_trim(a + "\n"@ + b)),
{
    let ta = crate::message::text_seg(a);
    let tb = crate::message::text_seg(b);
    law_texts_of_one(a, x);
    law_texts_of_one(b, x);
    law_texts_concat(seq![ta], seq![x]);
    law_texts_concat(seq![ta] + seq![x], seq![tb]);
    assert(seq![ta] + seq![x] + seq![tb] =~= seq![ta, x, tb]);
    let ts = texts_of(seq![ta, x, tb]);
    assert(ts =~= seq![a, b]);
    assert(seq![a, b].drop_last() =~= seq![a]);
    assert(join(seq![a], "\n"@) == a);
    assert(join(seq![a, b], "\n"@) == a + "\n"@ + b);
}

} // verus!
