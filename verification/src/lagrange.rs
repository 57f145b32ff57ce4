//! Requests of the Lagrange extension of OneBot, and the segments of forwarded messages.
//!
//! Every request here awaits its reply and is tagged by `rand_echo`.
use vstd::prelude::*;
use crate::api::{message_json, message_json_view, SendApi, SendApiV};
use crate::json::{Json, JsonV, obj_from};
use crate::message::{Message, Segment, SegmentV};
use crate::onebot::{is_rand_echo, params, rand_echo};

verus! {

/// A Lagrange request with these parameters, tagged as `rand_echo` tags them.
pub open spec fn tagged(r: SendApiV, action: Seq<char>, kvs: Seq<(Seq<char>, JsonV)>) -> bool {
    &&& r.action == action
    &&& r.params == params(kvs)
    &&& is_rand_echo(r.echo)
}

fn tagged_request(action: &str, params: Json) -> (r: SendApi)
    ensures
        r@.action == action@,
        r@.params == params@,
        is_rand_echo(r@.echo),
{
    let echo = rand_echo();
    SendApi::new(action, params, echo.as_str())
}

/// The parameters object with these entries, set in turn.
fn params_of(kvs: Vec<(String, Json)>) -> (r: Json)
    ensures
        r@ == params(crate::api::kv_views(kvs@)),
{
    crate::api::object_from(kvs)
}

fn kv(key: &str, value: Json) -> (r: (String, Json))
    ensures
        r.0@ == key@,
        r.1@ == value@,
{
    (key.to_owned(), value)
}

/// Fetches the custom faces of the account.
pub fn fetch_custom_face() -> (r: SendApi)
    ensures
        tagged(r@, "fetch_custom_face"@, Seq::empty()),
{
    let kvs: Vec<(String, Json)> = Vec::new();
    assert(crate::api::kv_views(kvs@) =~= Seq::<(Seq<char>, JsonV)>::empty());
    tagged_request("fetch_custom_face", params_of(kvs))
}

/// Fetches `count` messages of a friend chat, back from `message_id`.
pub fn get_friend_msg_history(user_id: i64, message_id: i64, count: i64) -> (r: SendApi)
    ensures
        tagged(r@, "get_friend_msg_history"@, seq![
            ("user_id"@, JsonV::Int(user_id as int)),
            ("message_id"@, JsonV::Int(message_id as int)),
            ("count"@, JsonV::Int(count as int)),
        ]),
{
    let mut kvs: Vec<(String, Json)> = Vec::new();
    kvs.push(kv("user_id", Json::Int(user_id)));
    kvs.push(kv("message_id", Json::Int(message_id)));
    kvs.push(kv("count", Json::Int(count)));
    assert(crate::api::kv_views(kvs@) =~= seq![
        ("user_id"@, JsonV::Int(user_id as int)),
        ("message_id"@, JsonV::Int(message_id as int)),
        ("count"@, JsonV::Int(count as int)),
    ]);
    tagged_request("get_friend_msg_history", params_of(kvs))
}

/// Fetches `count` messages of a group chat, back from `message_id`.
pub fn get_group_msg_history(group_id: i64, message_id: i64, count: i64) -> (r: SendApi)
    ensures
        tagged(r@, "get_group_msg_history"@, seq![
            ("group_id"@, JsonV::Int(group_id as int)),
            ("message_id"@, JsonV::Int(message_id as int)),
            ("count"@, JsonV::Int(count as int)),
        ]),
{
    let mut kvs: Vec<(String, Json)> = Vec::new();
    kvs.push(kv("group_id", Json::Int(group_id)));
    kvs.push(kv("message_id", Json::Int(message_id)));
    kvs.push(kv("count", Json::Int(count)));
    assert(crate::api::kv_views(kvs@) =~= seq![
        ("group_id"@, JsonV::Int(group_id as int)),
        ("message_id"@, JsonV::Int(message_id as int)),
        ("count"@, JsonV::Int(count as int)),
    ]);
    tagged_request("get_group_msg_history", params_of(kvs))
}

/// Builds a forwarded message from its nodes, and awaits its id.
pub fn send_forward_msg(messages: Vec<Segment>) -> (r: SendApi)
    ensures
        tagged(r@, "send_forward_msg"@, seq![("messages"@, message_json_view(Message(messages)@))]),
{
    let m = Message(messages);
    let mut kvs: Vec<(String, Json)> = Vec::new();
    kvs.push(kv("messages", message_json(&m)));
    assert(crate::api::kv_views(kvs@) =~= seq![("messages"@, message_json_view(m@))]);
    tagged_request("send_forward_msg", params_of(kvs))
}

/// Sends a forwarded message, made of these nodes, to a group.
pub fn send_group_forward_msg(group_id: i64, messages: Vec<Segment>) -> (r: SendApi)
    ensures
        tagged(r@, "send_group_forward_msg"@, seq![
            ("group_id"@, JsonV::Int(group_id as int)),
            ("messages"@, message_json_view(Message(messages)@)),
        ]),
{
    let m = Message(messages);
    let mut kvs: Vec<(String, Json)> = Vec::new();
    kvs.push(kv("group_id", Json::Int(group_id)));
    kvs.push(kv("messages", message_json(&m)));
    assert(crate::api::kv_views(kvs@) =~= seq![
        ("group_id"@, JsonV::Int(group_id as int)),
        ("messages"@, message_json_view(m@)),
    ]);
    tagged_request("send_group_forward_msg", params_of(kvs))
}

/// Sends a forwarded message, made of these nodes, to a user.
pub fn send_private_forward_msg(user_id: i64, messages: Vec<Segment>) -> (r: SendApi)
    ensures
        tagged(r@, "send_private_forward_msg"@, seq![
            ("user_id"@, JsonV::Int(user_id as int)),
            ("messages"@, message_json_view(Message(messages)@)),
        ]),
{
    let m = Message(messages);
    let mut kvs: Vec<(String, Json)> = Vec::new();
    kvs.push(kv("user_id", Json::Int(user_id)));
    kvs.push(kv("messages", message_json(&m)));
    assert(crate::api::kv_views(kvs@) =~= seq![
        ("user_id"@, JsonV::Int(user_id as int)),
        ("messages"@, message_json_view(m@)),
    ]);
    tagged_request("send_private_forward_msg", params_of(kvs))
}

/// The parameters of a group file upload: the folder only when one is given.
pub open spec fn group_file_params(group_id: i64, file: Seq<char>, name: Seq<char>, folder: Option<Seq<char>>) -> Seq<(Seq<char>, JsonV)> {
    let base = seq![
        ("group_id"@, JsonV::Int(group_id as int)),
        ("file"@, JsonV::Str(file)),
        ("name"@, JsonV::Str(name)),
    ];
    match folder {
        Some(f) => base.push(("folder"@, JsonV::Str(f))),
        None => base,
    }
}

/// Uploads the file at path `file` to a group, under `name`, into `folder` when one is given.
pub fn upload_group_file(group_id: i64, file: &str, name: &str, folder: Option<&str>) -> (r: SendApi)
    ensures
        tagged(r@, "upload_group_file"@, group_file_params(group_id, file@, name@, match folder {
            Some(f) => Some(f@),
            None => None,
        })),
{
    let mut kvs: Vec<(String, Json)> = Vec::new();
    kvs.push(kv("group_id", Json::Int(group_id)));
    kvs.push(kv("file", Json::string(file)));
    kvs.push(kv("name", Json::string(name)));
    match folder {
        Some(f) => {
            kvs.push(kv("folder", Json::string(f)));
            assert(crate::api::kv_views(kvs@) =~= group_file_params(group_id, file@, name@, Some(f@)));
        },
        None => {
            assert(crate::api::kv_views(kvs@) =~= group_file_params(group_id, file@, name@, None));
        },
    }
    tagged_request("upload_group_file", params_of(kvs))
}

/// Uploads the file at path `file` to a user, under `name`.
pub fn upload_private_file(user_id: i64, file: &str, name: &str) -> (r: SendApi)
    ensures
        tagged(r@, "upload_private_file"@, seq![
            ("user_id"@, JsonV::Int(user_id as int)),
            ("file"@, JsonV::Str(file@)),
            ("name"@, JsonV::Str(name@)),
        ]),
{
    let mut kvs: Vec<(String, Json)> = Vec::new();
    kvs.push(kv("user_id", Json::Int(user_id)));
    kvs.push(kv("file", Json::string(file)));
    kvs.push(kv("name", Json::string(name)));
    assert(crate::api::kv_views(kvs@) =~= seq![
        ("user_id"@, JsonV::Int(user_id as int)),
        ("file"@, JsonV::Str(file@)),
        ("name"@, JsonV::Str(name@)),
    ]);
    tagged_request("upload_private_file", params_of(kvs))
}

/// Lists the files at the root of a group's file space.
pub fn get_group_root_files(group_id: i64) -> (r: SendApi)
    ensures
        tagged(r@, "get_group_root_files"@, seq![("group_id"@, JsonV::Int(group_id as int))]),
{
    let mut kvs: Vec<(String, Json)> = Vec::new();
    kvs.push(kv("group_id", Json::Int(group_id)));
    assert(crate::api::kv_views(kvs@) =~= seq![("group_id"@, JsonV::Int(group_id as int))]);
    tagged_request("get_group_root_files", params_of(kvs))
}

/// Lists the files of a folder of a group.
pub fn get_group_files_by_folder(group_id: i64, folder_id: &str) -> (r: SendApi)
    ensures
        tagged(r@, "get_group_files_by_folder"@, seq![
            ("group_id"@, JsonV::Int(group_id as int)),
            ("folder_id"@, JsonV::Str(folder_id@)),
        ]),
{
    let mut kvs: Vec<(String, Json)> = Vec::new();
    kvs.push(kv("group_id", Json::Int(group_id)));
    kvs.push(kv("folder_id", Json::string(folder_id)));
    assert(crate::api::kv_views(kvs@) =~= seq![
        ("group_id"@, JsonV::Int(group_id as int)),
        ("folder_id"@, JsonV::Str(folder_id@)),
    ]);
    tagged_request("get_group_files_by_folder", params_of(kvs))
}

/// Fetches the download address of a group file.
pub fn get_group_file_url(group_id: i64, file_id: &str, busid: i64) -> (r: SendApi)
    ensures
        tagged(r@, "get_group_file_url"@, seq![
            ("group_id"@, JsonV::Int(group_id as int)),
            ("file_id"@, JsonV::Str(file_id@)),
            ("busid"@, JsonV::Int(busid as int)),
        ]),
{
    let mut kvs: Vec<(String, Json)> = Vec::new();
    kvs.push(kv("group_id", Json::Int(group_id)));
    kvs.push(kv("file_id", Json::string(file_id)));
    kvs.push(kv("busid", Json::Int(busid)));
    assert(crate::api::kv_views(kvs@) =~= seq![
        ("group_id"@, JsonV::Int(group_id as int)),
        ("file_id"@, JsonV::Str(file_id@)),
        ("busid"@, JsonV::Int(busid as int)),
    ]);
    tagged_request("get_group_file_url", params_of(kvs))
}

/// Pokes a friend.
pub fn friend_poke(user_id: i64) -> (r: SendApi)
    ensures
        tagged(r@, "friend_poke"@, seq![("user_id"@, JsonV::Int(user_id as int))]),
{
    let mut kvs: Vec<(String, Json)> = Vec::new();
    kvs.push(kv("user_id", Json::Int(user_id)));
    assert(crate::api::kv_views(kvs@) =~= seq![("user_id"@, JsonV::Int(user_id as int))]);
    tagged_request("friend_poke", params_of(kvs))
}

/// Pokes a member of a group.
pub fn group_poke(group_id: i64, user_id: i64) -> (r: SendApi)
    ensures
        tagged(r@, "group_poke"@, seq![
            ("group_id"@, JsonV::Int(group_id as int)),
            ("user_id"@, JsonV::Int(user_id as int)),
        ]),
{
    let mut kvs: Vec<(String, Json)> = Vec::new();
    kvs.push(kv("group_id", Json::Int(group_id)));
    kvs.push(kv("user_id", Json::Int(user_id)));
    assert(crate::api::kv_views(kvs@) =~= seq![
        ("group_id"@, JsonV::Int(group_id as int)),
        ("user_id"@, JsonV::Int(user_id as int)),
    ]);
    tagged_request("group_poke", params_of(kvs))
}

/// A node of a forwarded message: who says it and what.
pub open spec fn forward_node(uin: Seq<char>, name: Seq<char>, content: Seq<SegmentV>) -> SegmentV {
    SegmentV {
        type_: "node"@,
        data: JsonV::Object(obj_from(seq![
            ("name"@, JsonV::Str(name)),
            ("uin"@, JsonV::Str(uin)),
            ("content"@, message_json_view(content)),
        ])),
    }
}

/// Appends a node to the nodes of a forwarded message.
pub fn add_forward_node(nodes: Vec<Segment>, uin: &str, name: &str, content: Message) -> (r: Vec<Segment>)
    ensures
        crate::message::seg_views(r@) == crate::message::seg_views(nodes@).push(forward_node(uin@, name@, content@)),
{
    let mut kvs: Vec<(String, Json)> = Vec::new();
    kvs.push(kv("name", Json::string(name)));
    kvs.push(kv("uin", Json::string(uin)));
    kvs.push(kv("content", message_json(&content)));
    assert(crate::api::kv_views(kvs@) =~= seq![
        ("name"@, JsonV::Str(name@)),
        ("uin"@, JsonV::Str(uin@)),
        ("content"@, message_json_view(content@)),
    ]);
    let data = crate::api::object_from(kvs);
    let seg = Segment::new("node", data);
    let mut out = nodes;
    let ghost before = out@;
    out.push(seg);
    assert(crate::message::seg_views(out@) =~= crate::message::seg_views(before).push(forward_node(uin@, name@, content@)));
    out
}

/// The segment that points to a forwarded message by its id.
pub open spec fn forward_resid(resid: Seq<char>) -> SegmentV {
    SegmentV { type_: "forward"@, data: JsonV::Object(seq![("id"@, JsonV::Str(resid))]) }
}

impl Message {
    /// Appends a segment that points to a forwarded message by its id.
    pub fn add_forward_resid(self, resid: &str) -> (r: Message)
        ensures
            r@ == self@.push(forward_resid(resid@)),
    {
        let mut m = self;
        m.push(Segment::new("forward", crate::message::json_object1("id", Json::string(resid))));
        m
    }
}

} // verus!
