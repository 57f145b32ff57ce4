//! The OneBot V11 requests that a running bot sends, and what it reads from their replies.
//!
//! Each request is named after the bot method that sends it. A request whose reply is
//! awaited is tagged with a fresh random echo; one whose reply is dropped carries `None`.
//! The parameters form an object whose keys are kept in key order.
use rand::Rng;
use vstd::prelude::*;
use crate::text::{lemma_decimal_nonempty, push_decimal, spec_decimal, string_push};
use crate::api::{json_usize, usize_json, SendApi, SendApiV};
use crate::json::{obj_from, object_insert, entries_view, lemma_object_view, Json, JsonEntry, JsonV};

verus! {

/// A fresh tag for a request whose reply is awaited.
///
/// Calls `tungstenite::handshake::client::generate_key`, which encodes 16 random bytes in
/// padded base64. Its contract claims only that the text is 24 characters long; which
/// characters come out is left open, as they are random.
#[verifier::external_body]
fn generate_key() -> (r: String)
    ensures
        r@.len() == 24,
{
    tokio_tungstenite::tungstenite::handshake::client::generate_key()
}

/// The current time in whole seconds since the Unix epoch.
///
/// Calls `chrono::Utc::now().timestamp()`. Nothing is claimed of the result: it depends on
/// the clock.
#[verifier::external_body]
fn unix_timestamp() -> (r: i64) {
    chrono::Utc::now().timestamp()
}

/// A random lower-case ASCII letter.
///
/// Calls `rand::thread_rng().gen_range('a'..='z')`, whose result lies in the range it is
/// given; which letter comes out is left open.
#[verifier::external_body]
fn random_letter() -> (c: char)
    ensures
        'a' <= c <= 'z',
{
    rand::thread_rng().gen_range('a'..='z')
}

/// Whether a text is a tag as `rand_echo` makes them: the decimal text of a timestamp
/// followed by ten lower-case letters.
pub open spec fn is_rand_echo(e: Seq<char>) -> bool {
    &&& e.len() > 10
    &&& exists|ts: i64| #[trigger] spec_decimal(ts as int) == e.subrange(0, e.len() - 10)
    &&& forall|i: int| e.len() - 10 <= i < e.len() ==> 'a' <= #[trigger] e[i] <= 'z'
}

/// The tag made of a timestamp and ten lower-case letters: the timestamp's decimal text, then
/// the letters.
pub fn echo_from(ts: i64, letters: &Vec<char>) -> (r: String)
    requires
        letters@.len() == 10,
        forall|i: int| 0 <= i < 10 ==> 'a' <= #[trigger] letters@[i] <= 'z',
    ensures
        r@ == spec_decimal(ts as int) + letters@,
        is_rand_echo(r@),
{
    let mut s = String::new();
    push_decimal(&mut s, ts);
    let ghost head = s@;
    assert(head == spec_decimal(ts as int));
    proof { lemma_decimal_nonempty(ts as int); }
    let mut n: usize = 0;
    while n < letters.len()
        invariant
            n <= letters@.len(),
            letters@.len() == 10,
            s@ == head + letters@.take(n as int),
        decreases letters@.len() - n,
    {
        string_push(&mut s, letters[n]);
        assert(head + letters@.take(n + 1) =~= (head + letters@.take(n as int)).push(letters@[n as int]));
        n = n + 1;
    }
    assert(letters@.take(10) =~= letters@);
    assert(s@.subrange(0, s@.len() - 10) =~= head);
    assert forall|i: int| s@.len() - 10 <= i < s@.len() implies 'a' <= #[trigger] s@[i] <= 'z' by {
        assert(s@[i] == letters@[i - head.len()]);
    }
    s
}

/// A fresh tag for a request: the current Unix time in seconds, then ten random letters (see
/// `echo_from`).
pub fn rand_echo() -> (r: String)
    ensures
        is_rand_echo(r@),
{
    let ts = unix_timestamp();
    let mut letters: Vec<char> = Vec::new();
    while letters.len() < 10
        invariant
            letters@.len() <= 10,
            forall|i: int| 0 <= i < letters@.len() ==> 'a' <= #[trigger] letters@[i] <= 'z',
        decreases 10 - letters@.len(),
    {
        letters.push(random_letter());
    }
    echo_from(ts, &letters)
}

/// The parameters object with these entries, set in turn.
pub open spec fn params(kvs: Seq<(Seq<char>, JsonV)>) -> JsonV {
    JsonV::Object(obj_from(kvs))
}

/// A request whose reply is dropped.
pub open spec fn forget(action: Seq<char>, kvs: Seq<(Seq<char>, JsonV)>) -> SendApiV {
    SendApiV { action, params: params(kvs), echo: "None"@ }
}

/// A request whose reply is awaited: its echo is a fresh tag of 24 characters.
pub open spec fn awaited(r: SendApiV, action: Seq<char>, kvs: Seq<(Seq<char>, JsonV)>) -> bool {
    &&& r.action == action
    &&& r.params == params(kvs)
    &&& r.echo.len() == 24
}

fn obj_with(es: &mut Vec<JsonEntry>, Ghost(kvs): Ghost<Seq<(Seq<char>, JsonV)>>, key: &str, value: Json)
    requires
        entries_view(old(es)@) == obj_from(kvs),
    ensures
        entries_view(final(es)@) == obj_from(kvs.push((key@, value@))),
{
    object_insert(es, key.to_owned(), value);
    assert(kvs.push((key@, value@)).drop_last() =~= kvs);
}

fn params0() -> (r: Json)
    ensures
        r@ == params(Seq::empty()),
{
    let es: Vec<JsonEntry> = Vec::new();
    proof { lemma_object_view(es); }
    Json::Object(es)
}

fn params1(k1: &str, v1: Json) -> (r: Json)
    ensures
        r@ == params(seq![(k1@, v1@)]),
{
    let ghost s1 = seq![(k1@, v1@)];
    let mut es: Vec<JsonEntry> = Vec::new();
    assert(entries_view(es@) == obj_from(Seq::<(Seq<char>, JsonV)>::empty()));
    assert(Seq::<(Seq<char>, JsonV)>::empty().push((k1@, v1@)) =~= s1);
    obj_with(&mut es, Ghost(Seq::empty()), k1, v1);
    proof { lemma_object_view(es); }
    Json::Object(es)
}

fn params2(k1: &str, v1: Json, k2: &str, v2: Json) -> (r: Json)
    ensures
        r@ == params(seq![(k1@, v1@), (k2@, v2@)]),
{
    let ghost s1 = seq![(k1@, v1@)];
    let ghost s2 = seq![(k1@, v1@), (k2@, v2@)];
    assert(s1.push((k2@, v2@)) =~= s2);
    let mut es: Vec<JsonEntry> = Vec::new();
    obj_with(&mut es, Ghost(Seq::empty()), k1, v1);
    assert(Seq::<(Seq<char>, JsonV)>::empty().push((k1@, v1@)) =~= s1);
    obj_with(&mut es, Ghost(s1), k2, v2);
    proof { lemma_object_view(es); }
    Json::Object(es)
}

fn params3(k1: &str, v1: Json, k2: &str, v2: Json, k3: &str, v3: Json) -> (r: Json)
    ensures
        r@ == params(seq![(k1@, v1@), (k2@, v2@), (k3@, v3@)]),
{
    let ghost s1 = seq![(k1@, v1@)];
    let ghost s2 = s1.push((k2@, v2@));
    let ghost s3 = s2.push((k3@, v3@));
    assert(s3 =~= seq![(k1@, v1@), (k2@, v2@), (k3@, v3@)]);
    let mut es: Vec<JsonEntry> = Vec::new();
    obj_with(&mut es, Ghost(Seq::empty()), k1, v1);
    assert(Seq::<(Seq<char>, JsonV)>::empty().push((k1@, v1@)) =~= s1);
    obj_with(&mut es, Ghost(s1), k2, v2);
    obj_with(&mut es, Ghost(s2), k3, v3);
    proof { lemma_object_view(es); }
    Json::Object(es)
}

fn params4(k1: &str, v1: Json, k2: &str, v2: Json, k3: &str, v3: Json, k4: &str, v4: Json) -> (r: Json)
    ensures
        r@ == params(seq![(k1@, v1@), (k2@, v2@), (k3@, v3@), (k4@, v4@)]),
{
    let ghost s1 = seq![(k1@, v1@)];
    let ghost s2 = s1.push((k2@, v2@));
    let ghost s3 = s2.push((k3@, v3@));
    let ghost s4 = s3.push((k4@, v4@));
    assert(s4 =~= seq![(k1@, v1@), (k2@, v2@), (k3@, v3@), (k4@, v4@)]);
    let mut es: Vec<JsonEntry> = Vec::new();
    obj_with(&mut es, Ghost(Seq::empty()), k1, v1);
    assert(Seq::<(Seq<char>, JsonV)>::empty().push((k1@, v1@)) =~= s1);
    obj_with(&mut es, Ghost(s1), k2, v2);
    obj_with(&mut es, Ghost(s2), k3, v3);
    obj_with(&mut es, Ghost(s3), k4, v4);
    proof { lemma_object_view(es); }
    Json::Object(es)
}

fn awaited_request(action: &str, params: Json) -> (r: SendApi)
    ensures
        r@.action == action@,
        r@.params == params@,
        r@.echo.len() == 24,
{
    let echo = generate_key();
    SendApi::new(action, params, echo.as_str())
}

/// The parameters of a message sent to a group.
pub open spec fn group_msg_params(group_id: i64, message: JsonV) -> Seq<(Seq<char>, JsonV)> {
    seq![
        ("message_type"@, JsonV::Str("group"@)),
        ("group_id"@, JsonV::Int(group_id as int)),
        ("message"@, message),
        ("auto_escape"@, JsonV::Bool(true)),
    ]
}

/// The parameters of a message sent to a user.
pub open spec fn private_msg_params(user_id: i64, message: JsonV) -> Seq<(Seq<char>, JsonV)> {
    seq![
        ("message_type"@, JsonV::Str("private"@)),
        ("user_id"@, JsonV::Int(user_id as int)),
        ("message"@, message),
        ("auto_escape"@, JsonV::Bool(true)),
    ]
}

fn group_msg_json(group_id: i64, message: Json) -> (r: Json)
    ensures
        r@ == params(group_msg_params(group_id, message@)),
{
    params4("message_type", Json::string("group"), "group_id", Json::Int(group_id), "message", message, "auto_escape", Json::Bool(true))
}

fn private_msg_json(user_id: i64, message: Json) -> (r: Json)
    ensures
        r@ == params(private_msg_params(user_id, message@)),
{
    params4("message_type", Json::string("private"), "user_id", Json::Int(user_id), "message", message, "auto_escape", Json::Bool(true))
}

/// Sends `message` (its JSON form) to a group and awaits the message's id.
pub fn send_group_msg_return(group_id: i64, message: Json) -> (r: SendApi)
    ensures
        awaited(r@, "send_msg"@, group_msg_params(group_id, message@)),
{
    awaited_request("send_msg", group_msg_json(group_id, message))
}

/// Sends `message` (its JSON form) to a user and awaits the message's id.
pub fn send_private_msg_return(user_id: i64, message: Json) -> (r: SendApi)
    ensures
        awaited(r@, "send_msg"@, private_msg_params(user_id, message@)),
{
    awaited_request("send_msg", private_msg_json(user_id, message))
}

/// Asks whether images can be sent.
pub fn can_send_image() -> (r: SendApi)
    ensures
        awaited(r@, "can_send_image"@, Seq::empty()),
{
    awaited_request("can_send_image", params0())
}

/// Asks whether voice records can be sent.
pub fn can_send_record() -> (r: SendApi)
    ensures
        awaited(r@, "can_send_record"@, Seq::empty()),
{
    awaited_request("can_send_record", params0())
}

/// The id of a sent message in the reply's data: its `message_id`, cut to 32 bits.
pub fn sent_message_id(data: &Json) -> (r: Option<i32>)
    ensures
        r == (match JsonV::i64_of(data@.get("message_id"@)) {
            Some(v) => Some(v as i32),
            None => None::<i32>,
        }),
{
    match data.get("message_id") {
        Some(v) => match v.as_i64() {
            Some(n) => Some(n as i32),
            None => None,
        },
        None => None,
    }
}

/// The answer of a `can_send_*` reply: its `yes` flag.
pub fn yes_flag(data: &Json) -> (r: Option<bool>)
    ensures
        r == (match data@.get("yes"@) {
            Some(v) => v.as_bool(),
            None => None::<bool>,
        }),
{
    match data.get("yes") {
        Some(v) => v.as_bool(),
        None => None,
    }
}

/// Sends `message` (its JSON form) to a group; the reply is dropped.
pub fn send_group_msg(group_id: i64, message: Json) -> (r: SendApi)
    ensures
        r@ == forget("send_msg"@, group_msg_params(group_id, message@)),
{
    SendApi::new("send_msg", group_msg_json(group_id, message), "None")
}

/// Sends `message` (its JSON form) to a user; the reply is dropped.
pub fn send_private_msg(user_id: i64, message: Json) -> (r: SendApi)
    ensures
        r@ == forget("send_msg"@, private_msg_params(user_id, message@)),
{
    SendApi::new("send_msg", private_msg_json(user_id, message), "None")
}

/// Withdraws a message.
pub fn delete_msg(message_id: i32) -> (r: SendApi)
    ensures
        r@ == forget("delete_msg"@, seq![("message_id"@, JsonV::Int(message_id as int))]),
{
    SendApi::new("delete_msg", params1("message_id", Json::Int(message_id as i64)), "None")
}

/// Likes a user `times` times.
pub fn send_like(user_id: i64, times: usize) -> (r: SendApi)
    ensures
        r@ == forget("send_like"@, seq![("user_id"@, JsonV::Int(user_id as int)), ("times"@, usize_json(times))]),
{
    SendApi::new("send_like", params2("user_id", Json::Int(user_id), "times", json_usize(times)), "None")
}

/// Removes a member from a group.
pub fn set_group_kick(group_id: i64, user_id: i64, reject_add_request: bool) -> (r: SendApi)
    ensures
        r@ == forget("set_group_kick"@, seq![
            ("group_id"@, JsonV::Int(group_id as int)),
            ("user_id"@, JsonV::Int(user_id as int)),
            ("reject_add_request"@, JsonV::Bool(reject_add_request)),
        ]),
{
    SendApi::new("set_group_kick", params3("group_id", Json::Int(group_id), "user_id", Json::Int(user_id),
        "reject_add_request", Json::Bool(reject_add_request)), "None")
}

/// Mutes a member of a group for `duration` seconds (0 lifts the mute).
pub fn set_group_ban(group_id: i64, user_id: i64, duration: usize) -> (r: SendApi)
    ensures
        r@ == forget("set_group_ban"@, seq![
            ("group_id"@, JsonV::Int(group_id as int)),
            ("user_id"@, JsonV::Int(user_id as int)),
            ("duration"@, usize_json(duration)),
        ]),
{
    SendApi::new("set_group_ban", params3("group_id", Json::Int(group_id), "user_id", Json::Int(user_id),
        "duration", json_usize(duration)), "None")
}

/// Mutes an anonymous member, given as the `anonymous` record of its message.
pub fn set_group_anonymous_ban_use_anonymous(group_id: i64, anonymous: Json, duration: usize) -> (r: SendApi)
    ensures
        r@ == forget("set_group_anonymous_ban"@, seq![
            ("group_id"@, JsonV::Int(group_id as int)),
            ("anonymous"@, anonymous@),
            ("duration"@, usize_json(duration)),
        ]),
{
    SendApi::new("set_group_anonymous_ban", params3("group_id", Json::Int(group_id), "anonymous", anonymous,
        "duration", json_usize(duration)), "None")
}

/// Mutes an anonymous member, given by its flag.
pub fn set_group_anonymous_ban_use_flag(group_id: i64, flag: &str, duration: usize) -> (r: SendApi)
    ensures
        r@ == forget("set_group_anonymous_ban"@, seq![
            ("group_id"@, JsonV::Int(group_id as int)),
            ("flag"@, JsonV::Str(flag@)),
            ("duration"@, usize_json(duration)),
        ]),
{
    SendApi::new("set_group_anonymous_ban", params3("group_id", Json::Int(group_id), "flag", Json::string(flag),
        "duration", json_usize(duration)), "None")
}

/// Mutes or unmutes a whole group.
pub fn set_group_whole_ban(group_id: i64, enable: bool) -> (r: SendApi)
    ensures
        r@ == forget("set_group_whole_ban"@, seq![("group_id"@, JsonV::Int(group_id as int)), ("enable"@, JsonV::Bool(enable))]),
{
    SendApi::new("set_group_whole_ban", params2("group_id", Json::Int(group_id), "enable", Json::Bool(enable)), "None")
}

/// Makes a member an administrator of a group, or no longer one.
pub fn set_group_admin(group_id: i64, user_id: i64, enable: bool) -> (r: SendApi)
    ensures
        r@ == forget("set_group_admin"@, seq![
            ("group_id"@, JsonV::Int(group_id as int)),
            ("user_id"@, JsonV::Int(user_id as int)),
            ("enable"@, JsonV::Bool(enable)),
        ]),
{
    SendApi::new("set_group_admin", params3("group_id", Json::Int(group_id), "user_id", Json::Int(user_id),
        "enable", Json::Bool(enable)), "None")
}

/// Allows or forbids anonymous messages in a group.
pub fn set_group_anonymous(group_id: i64, enable: bool) -> (r: SendApi)
    ensures
        r@ == forget("set_group_anonymous"@, seq![("group_id"@, JsonV::Int(group_id as int)), ("enable"@, JsonV::Bool(enable))]),
{
    SendApi::new("set_group_anonymous", params2("group_id", Json::Int(group_id), "enable", Json::Bool(enable)), "None")
}

/// Sets a member's card in a group.
pub fn set_group_card(group_id: i64, user_id: i64, card: &str) -> (r: SendApi)
    ensures
        r@ == forget("set_group_card"@, seq![
            ("group_id"@, JsonV::Int(group_id as int)),
            ("user_id"@, JsonV::Int(user_id as int)),
            ("card"@, JsonV::Str(card@)),
        ]),
{
    SendApi::new("set_group_card", params3("group_id", Json::Int(group_id), "user_id", Json::Int(user_id),
        "card", Json::string(card)), "None")
}

/// Renames a group.
pub fn set_group_name(group_id: i64, group_name: &str) -> (r: SendApi)
    ensures
        r@ == forget("set_group_name"@, seq![("group_id"@, JsonV::Int(group_id as int)), ("group_name"@, JsonV::Str(group_name@))]),
{
    SendApi::new("set_group_name", params2("group_id", Json::Int(group_id), "group_name", Json::string(group_name)), "None")
}

/// Leaves a group, or dismisses it.
pub fn set_group_leave(group_id: i64, is_dismiss: bool) -> (r: SendApi)
    ensures
        r@ == forget("set_group_leave"@, seq![("group_id"@, JsonV::Int(group_id as int)), ("is_dismiss"@, JsonV::Bool(is_dismiss))]),
{
    SendApi::new("set_group_leave", params2("group_id", Json::Int(group_id), "is_dismiss", Json::Bool(is_dismiss)), "None")
}

/// Gives a member a special title in a group.
pub fn set_group_special_title(group_id: i64, user_id: i64, special_title: &str) -> (r: SendApi)
    ensures
        r@ == forget("set_group_special_title"@, seq![
            ("group_id"@, JsonV::Int(group_id as int)),
            ("user_id"@, JsonV::Int(user_id as int)),
            ("special_title"@, JsonV::Str(special_title@)),
        ]),
{
    SendApi::new("set_group_special_title", params3("group_id", Json::Int(group_id), "user_id", Json::Int(user_id),
        "special_title", Json::string(special_title)), "None")
}

/// Answers a friend request.
pub fn set_friend_add_request(flag: &str, approve: bool, remark: &str) -> (r: SendApi)
    ensures
        r@ == forget("set_friend_add_request"@, seq![
            ("flag"@, JsonV::Str(flag@)),
            ("approve"@, JsonV::Bool(approve)),
            ("remark"@, JsonV::Str(remark@)),
        ]),
{
    SendApi::new("set_friend_add_request", params3("flag", Json::string(flag), "approve", Json::Bool(approve),
        "remark", Json::string(remark)), "None")
}

/// Answers a request to join a group, or an invitation to one. The request type (`add` or
/// `invite`) goes under the key that the server expects (`type_param`: `type` or `sub_type`).
pub fn set_group_add_request(flag: &str, type_param: &str, sub_type: &str, approve: bool, reason: &str) -> (r: SendApi)
    ensures
        r@ == forget("set_group_add_request"@, seq![
            ("flag"@, JsonV::Str(flag@)),
            (type_param@, JsonV::Str(sub_type@)),
            ("approve"@, JsonV::Bool(approve)),
            ("reason"@, JsonV::Str(reason@)),
        ]),
{
    SendApi::new("set_group_add_request", params4("flag", Json::string(flag), type_param, Json::string(sub_type),
        "approve", Json::Bool(approve), "reason", Json::string(reason)), "None")
}

/// Asks the server to clean its cache.
pub fn clean_cache() -> (r: SendApi)
    ensures
        r@ == forget("clean_cache"@, Seq::empty()),
{
    SendApi::new("clean_cache", params0(), "None")
}

/// Fetches a message.
pub fn get_msg(message_id: i32) -> (r: SendApi)
    ensures
        awaited(r@, "get_msg"@, seq![("message_id"@, JsonV::Int(message_id as int))]),
{
    awaited_request("get_msg", params1("message_id", Json::Int(message_id as i64)))
}

/// Fetches a forwarded message.
pub fn get_forward_msg(id: &str) -> (r: SendApi)
    ensures
        awaited(r@, "get_forward_msg"@, seq![("id"@, JsonV::Str(id@))]),
{
    awaited_request("get_forward_msg", params1("id", Json::string(id)))
}

/// Asks which account the bot is logged in as.
pub fn get_login_info() -> (r: SendApi)
    ensures
        awaited(r@, "get_login_info"@, Seq::empty()),
{
    awaited_request("get_login_info", params0())
}

/// Fetches a stranger's profile.
pub fn get_stranger_info(user_id: i64, no_cache: bool) -> (r: SendApi)
    ensures
        awaited(r@, "get_stranger_info"@, seq![("user_id"@, JsonV::Int(user_id as int)), ("no_cache"@, JsonV::Bool(no_cache))]),
{
    awaited_request("get_stranger_info", params2("user_id", Json::Int(user_id), "no_cache", Json::Bool(no_cache)))
}

/// Fetches the friend list.
pub fn get_friend_list() -> (r: SendApi)
    ensures
        awaited(r@, "get_friend_list"@, Seq::empty()),
{
    awaited_request("get_friend_list", params0())
}

/// Fetches a group's profile.
pub fn get_group_info(group_id: i64, no_cache: bool) -> (r: SendApi)
    ensures
        awaited(r@, "get_group_info"@, seq![("group_id"@, JsonV::Int(group_id as int)), ("no_cache"@, JsonV::Bool(no_cache))]),
{
    awaited_request("get_group_info", params2("group_id", Json::Int(group_id), "no_cache", Json::Bool(no_cache)))
}

/// Fetches the group list.
pub fn get_group_list() -> (r: SendApi)
    ensures
        awaited(r@, "get_group_list"@, Seq::empty()),
{
    awaited_request("get_group_list", params0())
}

/// Fetches a member's profile in a group.
pub fn get_group_member_info(group_id: i64, user_id: i64, no_cache: bool) -> (r: SendApi)
    ensures
        awaited(r@, "get_group_member_info"@, seq![
            ("group_id"@, JsonV::Int(group_id as int)),
            ("user_id"@, JsonV::Int(user_id as int)),
            ("no_cache"@, JsonV::Bool(no_cache)),
        ]),
{
    awaited_request("get_group_member_info", params3("group_id", Json::Int(group_id), "user_id", Json::Int(user_id),
        "no_cache", Json::Bool(no_cache)))
}

/// Fetches a group's member list.
pub fn get_group_member_list(group_id: i64) -> (r: SendApi)
    ensures
        awaited(r@, "get_group_member_list"@, seq![("group_id"@, JsonV::Int(group_id as int))]),
{
    awaited_request("get_group_member_list", params1("group_id", Json::Int(group_id)))
}

/// The kinds of group honour.
#[derive(Debug, Clone, Copy)]
pub enum HonorType {
    All,
    Talkative,
    Performer,
    Legend,
    StrongNewbie,
    Emotion,
}

/// The name of a kind of group honour, as the server takes it.
pub open spec fn honor_name(h: HonorType) -> Seq<char> {
    match h {
        HonorType::All => "all"@,
        HonorType::Talkative => "talkative"@,
        HonorType::Performer => "performer"@,
        HonorType::Legend => "legend"@,
        HonorType::StrongNewbie => "strong_newbie"@,
        HonorType::Emotion => "emotion"@,
    }
}

/// The name of a kind of group honour (see `honor_name`).
pub fn honor_str(h: HonorType) -> (r: &'static str)
    ensures
        r@ == honor_name(h),
{
    match h {
        HonorType::All => "all",
        HonorType::Talkative => "talkative",
        HonorType::Performer => "performer",
        HonorType::Legend => "legend",
        HonorType::StrongNewbie => "strong_newbie",
        HonorType::Emotion => "emotion",
    }
}

/// Fetches a group's honours of one kind, or of all.
pub fn get_group_honor_info(group_id: i64, honor_type: HonorType) -> (r: SendApi)
    ensures
        awaited(r@, "get_group_honor_info"@, seq![
            ("group_id"@, JsonV::Int(group_id as int)),
            ("type"@, JsonV::Str(honor_name(honor_type))),
        ]),
{
    awaited_request("get_group_honor_info", params2("group_id", Json::Int(group_id), "type", Json::string(honor_str(honor_type))))
}

/// Fetches the cookies and CSRF token for a domain.
pub fn get_credentials(domain: &str) -> (r: SendApi)
    ensures
        awaited(r@, "get_credentials"@, seq![("domain"@, JsonV::Str(domain@))]),
{
    awaited_request("get_credentials", params1("domain", Json::string(domain)))
}

/// Fetches the server's status.
pub fn get_status() -> (r: SendApi)
    ensures
        awaited(r@, "get_status"@, Seq::empty()),
{
    awaited_request("get_status", params0())
}

/// Fetches the server's version.
pub fn get_version_info() -> (r: SendApi)
    ensures
        awaited(r@, "get_version_info"@, Seq::empty()),
{
    awaited_request("get_version_info", params0())
}

/// Fetches the cookies for a domain.
pub fn get_cookies(domain: &str) -> (r: SendApi)
    ensures
        awaited(r@, "get_cookies"@, seq![("domain"@, JsonV::Str(domain@))]),
{
    awaited_request("get_cookies", params1("domain", Json::string(domain)))
}

/// Fetches the CSRF token.
pub fn get_csrf_token() -> (r: SendApi)
    ensures
        awaited(r@, "get_csrf_token"@, Seq::empty()),
{
    awaited_request("get_csrf_token", params0())
}

/// Fetches a voice record, converted to `out_format`.
pub fn get_record(file: &str, out_format: &str) -> (r: SendApi)
    ensures
        awaited(r@, "get_record"@, seq![("file"@, JsonV::Str(file@)), ("out_format"@, JsonV::Str(out_format@))]),
{
    awaited_request("get_record", params2("file", Json::string(file), "out_format", Json::string(out_format)))
}

/// Fetches an image.
pub fn get_image(file: &str) -> (r: SendApi)
    ensures
        awaited(r@, "get_image"@, seq![("file"@, JsonV::Str(file@))]),
{
    awaited_request("get_image", params1("file", Json::string(file)))
}

/// Likes a user `times` times and awaits whether it worked.
pub fn send_like_return(user_id: i64, times: usize) -> (r: SendApi)
    ensures
        awaited(r@, "send_like"@, seq![("user_id"@, JsonV::Int(user_id as int)), ("times"@, usize_json(times))]),
{
    awaited_request("send_like", params2("user_id", Json::Int(user_id), "times", json_usize(times)))
}

/// Sends a request of any action; the reply is dropped.
pub fn send_api(action: &str, params: Json) -> (r: SendApi)
    ensures
        r@ == (SendApiV { action: action@, params: params@, echo: "None"@ }),
{
    SendApi::new(action, params, "None")
}

/// Sends a request of any action and awaits the reply.
pub fn send_api_return(action: &str, params: Json) -> (r: SendApi)
    ensures
        r@.action == action@,
        r@.params == params@,
        r@.echo.len() == 24,
{
    awaited_request(action, params)
}

} // verus!
