use kovi::project::{cargo_toml_addition, chosen_version};
use kovi::api::{json_usize, message_json, object_from, ApiReturn, SendApi};
use kovi::bot::{Bot, Host, IpAddress, KoviConf, Server};
use kovi::default_plugin::{
    fixed_reply, format_duration, parse_command, plugin_list_text, status_text, DefaultCommand,
};
use kovi::json::{object_insert, str_lt, Json, JsonEntry};
use kovi::lagrange::{add_forward_node, get_group_msg_history, upload_group_file};
use kovi::message::{json_eq, Message, Segment};
use kovi::onebot::{
    can_send_image, delete_msg, get_group_honor_info, get_msg, honor_str, rand_echo, send_api, send_api_return,
    send_group_msg, send_group_msg_return, send_like, sent_message_id, set_group_add_request, yes_flag, HonorType,
};
use kovi::registry::{register_request, route_reply, status_ok, ApiDelivery, NamedMap};
use kovi::text::{decimal, join_strings, trim};
use kovi::utils::calculate_pskey;

fn obj(entries: Vec<(&str, Json)>) -> Json {
    Json::Object(
        entries
            .into_iter()
            .map(|(k, v)| JsonEntry { key: k.to_string(), value: v })
            .collect(),
    )
}

fn s(t: &str) -> Json {
    Json::Str(t.to_string())
}

fn reply(status: &str, echo: &str) -> ApiReturn {
    ApiReturn { status: status.to_string(), retcode: 0, data: Json::Null, echo: echo.to_string() }
}

#[test]
fn replies_reach_their_requests() {
    let mut reg: NamedMap<u32> = NamedMap::new();
    let a = SendApi::new("get_msg", obj(vec![]), "abc");
    let b = SendApi::new("get_status", obj(vec![]), "def");
    let none = SendApi::new("delete_msg", obj(vec![]), "None");
    register_request(&mut reg, &a, Some(1));
    register_request(&mut reg, &b, Some(2));
    register_request(&mut reg, &none, None);
    assert!(reg.contains("abc") && reg.contains("def") && !reg.contains("None"));

    match route_reply(&mut reg, reply("Ok", "def")) {
        ApiDelivery::Deliver(t, Ok(r)) => {
            assert_eq!(t, 2);
            assert_eq!(r.echo, "def");
        }
        _ => panic!("the reply did not reach its request"),
    }
    assert!(!reg.contains("def"));
    match route_reply(&mut reg, reply("failed", "abc")) {
        ApiDelivery::Deliver(t, Err(r)) => {
            assert_eq!(t, 1);
            assert_eq!(r.status, "failed");
        }
        _ => panic!("a failed reply was not delivered as a failure"),
    }
    assert!(matches!(route_reply(&mut reg, reply("ok", "None")), ApiDelivery::Ignored(_)));
    assert!(matches!(route_reply(&mut reg, reply("ok", "abc")), ApiDelivery::Unmatched(_)));
}

#[test]
fn registry_replaces_a_waiter() {
    let mut reg: NamedMap<&str> = NamedMap::new();
    reg.insert("e".to_string(), "first");
    reg.insert("e".to_string(), "second");
    assert_eq!(reg.remove("e"), Some("second"));
    assert_eq!(reg.remove("e"), None);
}

#[test]
fn status_ok_ignores_case() {
    assert!(status_ok("ok"));
    assert!(status_ok("OK"));
    assert!(status_ok("oK"));
    assert!(status_ok("o\u{212A}"));
    assert!(!status_ok("okay"));
    assert!(!status_ok("failed"));
    assert!(!status_ok(""));
}

#[test]
fn fire_and_forget_requests() {
    let r = delete_msg(12);
    assert_eq!(r.action, "delete_msg");
    assert_eq!(r.echo, "None");
    assert!(json_eq(&r.params, &obj(vec![("message_id", Json::Int(12))])));

    let m = Message::from("hi");
    let g = send_group_msg(5, message_json(&m));
    let expected = obj(vec![
        ("auto_escape", Json::Bool(true)),
        ("group_id", Json::Int(5)),
        ("message", Json::Array(vec![obj(vec![("data", obj(vec![("text", s("hi"))])), ("type", s("text"))])])),
        ("message_type", s("group")),
    ]);
    assert_eq!(g.action, "send_msg");
    assert!(json_eq(&g.params, &expected));

    let like = send_like(7, 10);
    assert!(json_eq(&like.params, &obj(vec![("times", Json::Int(10)), ("user_id", Json::Int(7))])));

    let add = set_group_add_request("fl", "sub_type", "add", true, "");
    assert_eq!(add.action, "set_group_add_request");
    assert!(json_eq(
        &add.params,
        &obj(vec![("approve", Json::Bool(true)), ("flag", s("fl")), ("reason", s("")), ("sub_type", s("add"))])
    ));

    let raw = send_api("custom_action", obj(vec![("x", Json::Null)]));
    assert_eq!(raw.echo, "None");
    assert_eq!(raw.action, "custom_action");
}

#[test]
fn awaited_requests_get_fresh_tags() {
    let a = get_msg(3);
    let b = get_msg(3);
    assert_eq!(a.action, "get_msg");
    assert_eq!(a.echo.chars().count(), 24);
    assert_ne!(a.echo, "None");
    assert_ne!(a.echo, b.echo);
    let c = can_send_image();
    assert!(json_eq(&c.params, &obj(vec![])));
    let h = get_group_honor_info(9, HonorType::StrongNewbie);
    assert!(json_eq(&h.params, &obj(vec![("group_id", Json::Int(9)), ("type", s("strong_newbie"))])));
    let r = send_group_msg_return(1, s("t"));
    assert_eq!(r.echo.chars().count(), 24);
    let any = send_api_return("x", Json::Null);
    assert_eq!(any.echo.chars().count(), 24);
}

#[test]
fn honor_names() {
    assert_eq!(honor_str(HonorType::All), "all");
    assert_eq!(honor_str(HonorType::Talkative), "talkative");
    assert_eq!(honor_str(HonorType::Performer), "performer");
    assert_eq!(honor_str(HonorType::Legend), "legend");
    assert_eq!(honor_str(HonorType::StrongNewbie), "strong_newbie");
    assert_eq!(honor_str(HonorType::Emotion), "emotion");
}

#[test]
fn reply_data_is_read() {
    assert_eq!(sent_message_id(&obj(vec![("message_id", Json::Int(99))])), Some(99));
    assert_eq!(sent_message_id(&obj(vec![("message_id", Json::Int(4294967297))])), Some(1));
    assert_eq!(sent_message_id(&obj(vec![("message_id", s("1"))])), None);
    assert_eq!(yes_flag(&obj(vec![("yes", Json::Bool(true))])), Some(true));
    assert_eq!(yes_flag(&obj(vec![])), None);
}

#[test]
fn usize_numbers() {
    assert!(json_eq(&json_usize(5), &Json::Int(5)));
    match json_usize(usize::MAX) {
        Json::OtherNumber(t) => assert_eq!(t, usize::MAX.to_string()),
        Json::Int(_) => assert!(usize::MAX as u128 <= i64::MAX as u128),
        _ => panic!("not a number"),
    }
}

#[test]
fn rand_echo_shape() {
    let e = rand_echo();
    let n = e.chars().count();
    assert!(n > 10);
    let (head, tail) = e.split_at(n - 10);
    assert!(head.parse::<i64>().is_ok());
    assert!(tail.chars().all(|c| c.is_ascii_lowercase()));
}

#[test]
fn lagrange_requests() {
    let r = get_group_msg_history(1, 2, 3);
    assert_eq!(r.action, "get_group_msg_history");
    assert!(json_eq(
        &r.params,
        &obj(vec![("count", Json::Int(3)), ("group_id", Json::Int(1)), ("message_id", Json::Int(2))])
    ));
    let with_folder = upload_group_file(1, "/tmp/a", "a", Some("/f"));
    assert!(json_eq(
        &with_folder.params,
        &obj(vec![("file", s("/tmp/a")), ("folder", s("/f")), ("group_id", Json::Int(1)), ("name", s("a"))])
    ));
    let without = upload_group_file(1, "/tmp/a", "a", None);
    assert!(json_eq(
        &without.params,
        &obj(vec![("file", s("/tmp/a")), ("group_id", Json::Int(1)), ("name", s("a"))])
    ));
}

#[test]
fn forward_nodes() {
    let nodes = add_forward_node(Vec::new(), "10000", "test", Message::from("some"));
    assert_eq!(nodes.len(), 1);
    let expected = Segment::new(
        "node",
        obj(vec![
            (
                "content",
                Json::Array(vec![obj(vec![("data", obj(vec![("text", s("some"))])), ("type", s("text"))])]),
            ),
            ("name", s("test")),
            ("uin", s("10000")),
        ]),
    );
    assert_eq!(nodes[0], expected);
    let m = Message::new().add_forward_resid("res1");
    assert_eq!(m, Message(vec![Segment::new("forward", obj(vec![("id", s("res1"))]))]));
}

#[test]
fn default_commands() {
    assert!(matches!(parse_command(".h"), Some(DefaultCommand::Help)));
    assert!(matches!(parse_command(".help"), Some(DefaultCommand::Help)));
    assert!(matches!(parse_command(".plugin list"), Some(DefaultCommand::PluginList)));
    assert!(matches!(parse_command(".e -y"), Some(DefaultCommand::ExitConfirm)));
    assert!(matches!(parse_command(".status"), Some(DefaultCommand::Status)));
    assert!(parse_command(".h ").is_none());
    assert_eq!(fixed_reply(DefaultCommand::Exit), Some("真的要关闭 KoviBot 吗？\n关闭请输入.exit -y"));
    assert_eq!(fixed_reply(DefaultCommand::PluginHelp), Some("〓 Kovi 插件命令 〓\n.p list\n.p on/off <name?>"));
    assert_eq!(fixed_reply(DefaultCommand::Status), None);
}

#[test]
fn durations() {
    assert_eq!(format_duration(0), "0min");
    assert_eq!(format_duration(59), "0min");
    assert_eq!(format_duration(3661), "1h 1min");
    assert_eq!(format_duration(90061), "1d 1h 1min");
    assert_eq!(format_duration(-61), "-1min");
    assert_eq!(format_duration(i64::MIN), (i64::MIN / 60).to_string() + "min");
}

#[test]
fn status_and_plugin_list() {
    let st = status_text("bot", 3, 4, 120, "0.11.0");
    assert_eq!(st, "〓 Kovi 框架实时状态 〓\n昵称: bot\n列表: 3 好友，4 群\n运行: 2min\n框架: v0.11.0");
    let conf = KoviConf::new(
        1,
        None,
        Server { host: Host::IpAddr(IpAddress::V4([127, 0, 0, 1])), port: 8081, access_token: String::new(), secure: false },
        false,
    );
    let mut bot = Bot::build(&conf);
    assert_eq!(plugin_list_text(&bot), "〓 Kovi 插件列表 〓");
    bot.mount_main("a", "1");
    bot.mount_main("b", "1");
    assert_eq!(plugin_list_text(&bot), "〓 Kovi 插件列表 〓\na\nb");
}

#[test]
fn pskey_values() {
    assert_eq!(calculate_pskey(""), 5381);
    assert_eq!(calculate_pskey("abc"), 193485963);
    assert_eq!(calculate_pskey("@AbCdEfGhIj"), 1882591260);
    assert_eq!(calculate_pskey(&"x".repeat(20)), 1438524645);
}

#[test]
fn objects_keep_key_order() {
    let o = object_from(vec![("b".to_string(), Json::Int(1)), ("a".to_string(), Json::Int(2)), ("b".to_string(), Json::Int(3))]);
    assert!(json_eq(&o, &obj(vec![("a", Json::Int(2)), ("b", Json::Int(3))])));
    let mut es = Vec::new();
    object_insert(&mut es, "z".to_string(), Json::Null);
    object_insert(&mut es, "é".to_string(), Json::Null);
    object_insert(&mut es, "Z".to_string(), Json::Null);
    let keys: Vec<&str> = es.iter().map(|e| e.key.as_str()).collect();
    assert_eq!(keys, vec!["Z", "z", "é"]);
    assert!(str_lt("ab", "b") && str_lt("a", "ab") && !str_lt("b", "b"));
    assert_eq!(o.get("a").unwrap().as_i64(), Some(2));
    assert!(o.get("c").is_none());
    assert!(Json::Null.is_null() && Json::Array(vec![]).is_array());
}

#[test]
fn text_helpers() {
    assert_eq!(decimal(0), "0");
    assert_eq!(decimal(-120), "-120");
    assert_eq!(decimal(i64::MIN), i64::MIN.to_string());
    assert_eq!(trim("  a b \n"), "a b");
    assert_eq!(trim("\u{3000}x\u{3000}"), "x");
    assert_eq!(join_strings(&vec!["a".to_string(), "b".to_string()], ", "), "a, b");
    assert_eq!(join_strings(&Vec::new(), ", "), "");
}

#[test]
fn task_book_by_plugin() {
    let mut book: kovi::task::TaskBook<u8> = kovi::task::TaskBook::new();
    assert!(book.handles("a").is_none());
    book.record("a", 1);
    book.record("b", 2);
    book.record("a", 3);
    assert_eq!(book.handles("a").unwrap(), &vec![1, 3]);
    assert_eq!(book.handles("b").unwrap(), &vec![2]);
    let mut all = book.drain();
    all.sort();
    assert_eq!(all, vec![("a".to_string(), vec![1, 3]), ("b".to_string(), vec![2])]);
    assert!(book.handles("a").is_none());
}

#[test]
fn cron_patterns() {
    assert!(kovi::task::parse_cron("*/5 * * * *").is_ok());
    assert!(kovi::task::parse_cron("0 */5 * * * *").is_ok());
    assert!(kovi::task::parse_cron("").is_err());
    assert!(kovi::task::parse_cron("* * *").is_err());
}

#[test]
fn new_project_setup() {
    assert_eq!(chosen_version(Some("1.0.0".to_string()), Some("2.0.0".to_string()), "0.1.0"), "1.0.0");
    assert_eq!(chosen_version(None, Some("2.0.0".to_string()), "0.1.0"), "2.0.0");
    assert_eq!(chosen_version(None, None, "0.1.0"), "0.1.0");
    assert_eq!(
        cargo_toml_addition("0.11.0"),
        "kovi = { version = \"0.11.0\", features = [\"logger\"] }\n\n[workspace]\n"
    );
}

#[test]
fn echo_from_joins_time_and_letters() {
    let letters: Vec<char> = "abcdefghij".chars().collect();
    assert_eq!(kovi::onebot::echo_from(1700000000, &letters), "1700000000abcdefghij");
    assert_eq!(kovi::onebot::echo_from(-5, &letters), "-5abcdefghij");
}
