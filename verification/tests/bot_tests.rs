use kovi::bot::{
    default_log_level, is_access, AccessControlMode, Bot, Host, IpAddress, KoviConf, PluginStatus, AccessList,
    Server, SetAccessControlList, SetAdmin,
};
use kovi::error::{BotBuildError, BotError, EventBuildError};
use kovi::event::{MsgEvent, RequestEvent, Sex};
use kovi::handler::{
    lifecycle_request, listen_accepts, login_info, msg_targets, route_event, run_step, EventRoute, InitManager,
    InternalEvent, KoviEvent, ListenKind, LoginInfoError, RunStep,
};
use kovi::json::{Json, JsonEntry};
use kovi::message::{json_eq, Message};
use kovi::api::ApiReturn;

fn obj(entries: Vec<(&str, Json)>) -> Json {
    Json::Object(
        entries
            .into_iter()
            .map(|(k, v)| JsonEntry { key: k.to_string(), value: v })
            .collect(),
    )
}

fn s(t: &str) -> Json {
    Json::Str(t.to_string())
}

fn local_server() -> Server {
    Server {
        host: Host::IpAddr(IpAddress::V4([127, 0, 0, 1])),
        port: 8081,
        access_token: "".to_string(),
        secure: false,
    }
}

fn conf(main_admin: i64, admins: Option<Vec<i64>>) -> KoviConf {
    KoviConf::new(main_admin, admins, local_server(), false)
}

fn msg_event(group_id: Option<i64>, user_id: i64) -> MsgEvent {
    let mut entries = vec![
        ("time", Json::Int(1700000000)),
        ("self_id", Json::Int(10)),
        ("post_type", s("message")),
        ("message_type", s(if group_id.is_some() { "group" } else { "private" })),
        ("sub_type", s("normal")),
        ("message_id", Json::Int(77)),
        ("user_id", Json::Int(user_id)),
        (
            "message",
            Json::Array(vec![obj(vec![("type", s("text")), ("data", obj(vec![("text", s(" hello "))]))])]),
        ),
        ("raw_message", s(" hello ")),
        ("font", Json::Int(0)),
        (
            "sender",
            obj(vec![("user_id", Json::Int(user_id)), ("nickname", s("nick")), ("sex", s("male")), ("age", Json::Int(20))]),
        ),
    ];
    if let Some(g) = group_id {
        entries.push(("group_id", Json::Int(g)));
    }
    MsgEvent::new(obj(entries)).unwrap()
}

#[test]
fn build_bot() {
    let conf = KoviConf::new(
        123456,
        None,
        Server {
            host: Host::IpAddr(IpAddress::V4([127, 0, 0, 1])),
            port: 8081,
            access_token: "".to_string(),
            secure: false,
        },
        false,
    );
    let _ = Bot::build(&conf);
}

#[test]
fn build_keeps_admins() {
    let bot = Bot::build(&conf(1, Some(vec![2, 3])));
    assert_eq!(bot.get_main_admin(), 1);
    assert_eq!(bot.get_deputy_admins(), vec![2, 3]);
    assert_eq!(bot.get_all_admin(), vec![1, 2, 3]);
    assert!(bot.is_admin(3));
    assert!(!bot.is_admin(4));
    assert_eq!(bot.plugins.len(), 0);
}

#[test]
fn deputy_admin_changes() {
    let mut bot = Bot::build(&conf(1, None));
    bot.set_deputy_admins(SetAdmin::Add(5));
    bot.set_deputy_admins(SetAdmin::Adds(vec![6, 5, 7]));
    assert_eq!(bot.get_deputy_admins(), vec![5, 6, 5, 7]);
    bot.set_deputy_admins(SetAdmin::Remove(5));
    assert_eq!(bot.get_deputy_admins(), vec![6, 7]);
    bot.set_deputy_admins(SetAdmin::Removes(vec![7, 9]));
    assert_eq!(bot.get_deputy_admins(), vec![6]);
    bot.set_deputy_admins(SetAdmin::Changes(vec![8]));
    assert_eq!(bot.get_deputy_admins(), vec![8]);
}

#[test]
fn mount_and_switch_plugins() {
    let mut bot = Bot::build(&conf(1, None));
    bot.mount_main("alpha", "0.1.0");
    bot.mount_main("beta", "0.2.0");
    assert_eq!(bot.is_plugin_enable("alpha").unwrap(), true);
    assert!(bot.disable_plugin("alpha").is_ok());
    assert_eq!(bot.is_plugin_enable("alpha").unwrap(), false);
    assert!(bot.disable_plugin("alpha").is_ok());
    assert_eq!(bot.is_plugin_enable("alpha").unwrap(), false);
    assert_eq!(bot.is_plugin_enable("beta").unwrap(), true);
    assert!(bot.enable_plugin("alpha").is_ok());
    assert!(bot.enable_plugin("alpha").is_ok());
    match bot.disable_plugin("gamma") {
        Err(e) => assert_eq!(e.to_string(), "Plugin not found: gamma"),
        Ok(_) => panic!("stopped a plugin that was never mounted"),
    }
    assert_eq!(bot.is_plugin_enable("alpha").unwrap(), true);
    match bot.is_plugin_enable("gamma") {
        Err(e) => assert_eq!(e.to_string(), "Plugin not found: gamma"),
        Ok(_) => panic!("found a plugin that was never mounted"),
    }
    bot.mount_main("alpha", "0.3.0");
    let info = bot.get_plugin_info();
    assert_eq!(info.len(), 2);
    assert_eq!(info[0].name, "alpha");
    assert_eq!(info[0].version, "0.3.0");
    assert!(info[0].enabled && info[0].enable_on_startup && !info[0].access_control);
    assert_eq!(info[0].list_mode, AccessControlMode::WhiteList);
}

#[test]
fn startup_flags() {
    let mut bot = Bot::build(&conf(1, None));
    bot.mount_main("alpha", "1");
    bot.mount_main("beta", "1");
    bot.set_all_plugin_startup_ref(false);
    let st = bot.plugin_statuses();
    assert!(!st[0].1.enable_on_startup && !st[1].1.enable_on_startup);
    let bot = bot.set_plugin_startup("beta", true).unwrap();
    let st = bot.plugin_statuses();
    assert_eq!(st[1].0, "beta");
    assert!(st[1].1.enable_on_startup);
    match bot.set_plugin_startup("nope", true) {
        Err(BotError::PluginNotFound(t)) => assert_eq!(t, "Plugin nope not found"),
        _ => panic!("set the startup of a missing plugin"),
    }
}

#[test]
fn startup_from_statuses() {
    let mut bot = Bot::build(&conf(1, None));
    bot.mount_main("alpha", "1");
    bot.mount_main("beta", "1");
    let statuses = vec![
        (
            "beta".to_string(),
            PluginStatus {
                enable_on_startup: false,
                access_control: true,
                list_mode: AccessControlMode::BlackList,
                access_list: AccessList { friends: vec![4], groups: vec![] },
            },
        ),
        (
            "ghost".to_string(),
            PluginStatus {
                enable_on_startup: false,
                access_control: false,
                list_mode: AccessControlMode::WhiteList,
                access_list: AccessList { friends: vec![], groups: vec![] },
            },
        ),
    ];
    let bot = bot.set_plugin_startup_use_file(&statuses);
    let info = bot.get_plugin_info();
    assert!(info[0].enable_on_startup);
    assert!(!info[1].enable_on_startup);
    assert!(info[1].access_control);
    assert_eq!(info[1].list_mode, AccessControlMode::BlackList);
    assert_eq!(info[1].access_list.friends, vec![4]);
}

#[test]
fn access_control_decides_targets() {
    let mut bot = Bot::build(&conf(1, None));
    bot.mount_main("open", "1");
    bot.mount_main("white", "1");
    bot.mount_main("black", "1");
    bot.set_plugin_access_control("white", true).unwrap();
    bot.set_plugin_access_control_list("white", true, SetAccessControlList::Add(555)).unwrap();
    bot.set_plugin_access_control("black", true).unwrap();
    bot.set_plugin_access_control_mode("black", AccessControlMode::BlackList).unwrap();
    bot.set_plugin_access_control_list("black", false, SetAccessControlList::Adds(vec![42, 43])).unwrap();

    let in_group = msg_event(Some(555), 42);
    assert_eq!(msg_targets(&bot, &in_group), vec![0, 1, 2]);
    let other_group = msg_event(Some(556), 42);
    assert_eq!(msg_targets(&bot, &other_group), vec![0, 2]);
    let private = msg_event(None, 42);
    assert_eq!(msg_targets(&bot, &private), vec![0]);
    assert!(!is_access(&bot.plugins[2], &private));

    bot.set_plugin_access_control_list("black", false, SetAccessControlList::Remove(42)).unwrap();
    assert_eq!(msg_targets(&bot, &private), vec![0, 2]);
    bot.set_plugin_access_control_list("black", false, SetAccessControlList::Changes(vec![42])).unwrap();
    assert_eq!(bot.plugins[2].access_list.friends, vec![42]);
    bot.set_plugin_access_control_list("black", false, SetAccessControlList::Removes(vec![42])).unwrap();
    assert_eq!(bot.plugins[2].access_list.friends, Vec::<i64>::new());
    match bot.set_plugin_access_control("nope", true) {
        Err(BotError::PluginNotFound(t)) => assert_eq!(t, "nope"),
        _ => panic!("changed a missing plugin"),
    }
}

#[test]
fn listeners_by_kind() {
    let bot = Bot::build(&conf(1, Some(vec![2])));
    let group = msg_event(Some(5), 2);
    let private = msg_event(None, 3);
    assert!(listen_accepts(&bot, ListenKind::Msg, &private));
    assert!(listen_accepts(&bot, ListenKind::GroupMsg, &group));
    assert!(!listen_accepts(&bot, ListenKind::GroupMsg, &private));
    assert!(listen_accepts(&bot, ListenKind::PrivateMsg, &private));
    assert!(!listen_accepts(&bot, ListenKind::PrivateMsg, &group));
    assert!(listen_accepts(&bot, ListenKind::AdminMsg, &group));
    assert!(!listen_accepts(&bot, ListenKind::AdminMsg, &private));
}

#[test]
fn msg_event_fields() {
    let e = msg_event(Some(555), 42);
    assert_eq!(e.time, 1700000000);
    assert_eq!(e.message_type, "group");
    assert_eq!(e.group_id, Some(555));
    assert_eq!(e.text, Some("hello".to_string()));
    assert_eq!(e.get_text(), "hello");
    assert_eq!(e.borrow_text(), Some("hello"));
    assert_eq!(e.human_text, " hello ");
    assert_eq!(e.get_sender_nickname(), "nick");
    assert!(matches!(e.sender.sex, Some(Sex::Male)));
    assert_eq!(e.sender.age, Some(20));
    assert!(e.is_group() && !e.is_private());
    assert!(e.anonymous.is_none());
    assert!(json_eq(e.get("font").unwrap(), &Json::Int(0)));
}

#[test]
fn msg_event_errors() {
    match MsgEvent::new(Json::Array(vec![])) {
        Err(e) => assert_eq!(e.to_string(), "Parse error: Invalid JSON object"),
        Ok(_) => panic!("read an array as an event"),
    }
    match MsgEvent::new(obj(vec![("sender", obj(vec![]))])) {
        Err(EventBuildError::ParseError(t)) => assert_eq!(t, "Invalid user_id"),
        Ok(_) => panic!("read an event without a sender id"),
    }
    match MsgEvent::new(obj(vec![("sender", obj(vec![("user_id", Json::Int(1))])), ("message", Json::Int(3))])) {
        Err(EventBuildError::ParseError(t)) => assert_eq!(t, "Invalid message string"),
        Ok(_) => panic!("read a number as a message"),
    }
    match MsgEvent::new(obj(vec![
        ("sender", obj(vec![("user_id", Json::Int(1))])),
        ("message", s("hi[CQ:face,id=1]")),
    ])) {
        Err(EventBuildError::ParseError(t)) => assert_eq!(t, "Invalid time"),
        Ok(_) => panic!("read an event without a time"),
    }
}

#[test]
fn msg_event_replies() {
    let e = msg_event(None, 42);
    let r = e.reply_text_request("hi");
    assert_eq!(r.action, "send_msg");
    assert_eq!(r.echo, "None");
    let expected = obj(vec![
        ("auto_escape", Json::Bool(true)),
        ("message", s("hi")),
        ("message_type", s("private")),
        ("user_id", Json::Int(42)),
    ]);
    assert!(json_eq(&r.params, &expected));
    let q = e.reply_and_quote_request(Message::from("x"));
    let msg = q.params.get("message").unwrap();
    match msg {
        Json::Array(items) => {
            assert_eq!(items.len(), 2);
            assert!(json_eq(items[0].get("type").unwrap(), &s("reply")));
            assert!(json_eq(items[0].get("data").unwrap(), &obj(vec![("id", s("77"))])));
        }
        _ => panic!("the message is not an array"),
    }
}

#[test]
fn request_event_reads_fields() {
    let ok = RequestEvent::new(obj(vec![
        ("time", Json::Int(1)),
        ("self_id", Json::Int(2)),
        ("post_type", s("request")),
        ("request_type", s("friend")),
        ("flag", s("f")),
    ]))
    .unwrap();
    assert_eq!(ok.request_type, "friend");
    assert!(json_eq(ok.get("flag").unwrap(), &s("f")));
    match RequestEvent::new(obj(vec![("time", Json::Int(1)), ("self_id", Json::Int(2))])) {
        Err(EventBuildError::ParseError(t)) => assert_eq!(t, "post_type"),
        Ok(_) => panic!("read a request without post_type"),
    }
}

#[test]
fn event_loop_steps() {
    assert!(matches!(run_step(&InternalEvent::KoviEvent(KoviEvent::Drop)), RunStep::DispatchAndStop));
    assert!(matches!(run_step(&InternalEvent::OneBotEvent("{}".to_string())), RunStep::Dispatch));
    let plan = InitManager::init(true, false);
    assert!(!plan.start_runtime && plan.start_task_manager);
}

#[test]
fn reports_are_routed() {
    assert!(matches!(route_event(&obj(vec![("meta_event_type", s("lifecycle"))])), EventRoute::Lifecycle));
    assert!(matches!(route_event(&obj(vec![("meta_event_type", s("heartbeat")), ("post_type", s("message"))])), EventRoute::OtherMeta));
    assert!(matches!(route_event(&obj(vec![("meta_event_type", Json::Int(1))])), EventRoute::OtherMeta));
    assert!(matches!(route_event(&obj(vec![("post_type", s("message"))])), EventRoute::Message));
    assert!(matches!(route_event(&obj(vec![("post_type", s("message_sent"))])), EventRoute::MessageSent));
    assert!(matches!(route_event(&obj(vec![("post_type", s("notice"))])), EventRoute::Notice));
    assert!(matches!(route_event(&obj(vec![("post_type", s("request"))])), EventRoute::Request));
    assert!(matches!(route_event(&obj(vec![("post_type", s("other"))])), EventRoute::Unknown));
    assert!(matches!(route_event(&obj(vec![])), EventRoute::MissingPostType));
    assert!(matches!(route_event(&obj(vec![("post_type", Json::Int(2))])), EventRoute::InvalidPostType));
    assert!(matches!(route_event(&Json::Null), EventRoute::MissingPostType));
}

#[test]
fn lifecycle_login() {
    let r = lifecycle_request();
    assert_eq!(r.action, "get_login_info");
    assert_eq!(r.echo, "kovi");
    assert!(json_eq(&r.params, &obj(vec![])));
    let reply = |data: Json| ApiReturn { status: "ok".to_string(), retcode: 0, data, echo: "kovi".to_string() };
    match login_info(&Ok(reply(obj(vec![("user_id", Json::Int(9)), ("nickname", s("bot"))])))) {
        Ok((id, name)) => {
            assert_eq!(id, 9);
            assert!(json_eq(&name, &s("bot")));
        }
        Err(_) => panic!("no login info"),
    }
    assert!(matches!(login_info(&Ok(reply(obj(vec![("nickname", s("bot"))])))), Err(LoginInfoError::MissingUserId)));
    assert!(matches!(login_info(&Ok(reply(obj(vec![("user_id", s("9"))])))), Err(LoginInfoError::UserIdNotInteger)));
    assert!(matches!(login_info(&Ok(reply(obj(vec![("user_id", Json::Int(9))])))), Err(LoginInfoError::MissingNickname)));
    assert!(matches!(login_info(&Err(reply(obj(vec![])))), Err(LoginInfoError::Refused)));
}

#[test]
fn log_level_and_errors() {
    let debug_conf = KoviConf::new(1, None, local_server(), true);
    assert_eq!(default_log_level(false, &debug_conf), Some("debug"));
    assert_eq!(default_log_level(false, &conf(1, None)), Some("info"));
    assert_eq!(default_log_level(true, &debug_conf), None);
    assert_eq!(BotError::RefExpired.to_string(), "Bot's Weak reference has expired");
    assert_eq!(BotBuildError::FileReadError("x".to_string()).to_string(), "Failed to read TOML file: x");
    assert_eq!(BotBuildError::FileCreateError("y".to_string()).to_string(), "Failed to create config file: y");
    assert_eq!(BotBuildError::TomlParseError("z".to_string()).to_string(), "Failed to parse TOML:\nz\nPlease reload the config file");
}

#[test]
fn startup_plugins_and_data_dir() {
    let mut bot = Bot::build(&conf(1, None));
    bot.mount_main("a", "1");
    bot.mount_main("b", "1");
    bot.mount_main("c", "1");
    bot.set_plugin_startup_ref("b", false).unwrap();
    assert_eq!(bot.startup_plugins(), vec![0, 2]);
    assert_eq!(kovi::bot::plugin_data_dir("hi"), "data/hi");
}

#[test]
fn white_and_black_lists_are_opposite() {
    let mut bot = Bot::build(&conf(1, None));
    bot.mount_main("p", "1");
    bot.set_plugin_access_control_list("p", true, SetAccessControlList::Add(7)).unwrap();
    let listed = msg_event(Some(7), 1);
    let unlisted = msg_event(Some(8), 1);
    assert!(is_access(&bot.plugins[0], &listed) && is_access(&bot.plugins[0], &unlisted));
    bot.set_plugin_access_control("p", true).unwrap();
    let white = (is_access(&bot.plugins[0], &listed), is_access(&bot.plugins[0], &unlisted));
    bot.set_plugin_access_control_mode("p", AccessControlMode::BlackList).unwrap();
    let black = (is_access(&bot.plugins[0], &listed), is_access(&bot.plugins[0], &unlisted));
    assert_eq!(white, (true, false));
    assert_eq!(black, (false, true));
}

#[test]
fn deputy_added_then_removed_is_gone() {
    let mut bot = Bot::build(&conf(1, Some(vec![3, 4])));
    bot.set_deputy_admins(SetAdmin::Add(9));
    assert!(bot.is_admin(9));
    bot.set_deputy_admins(SetAdmin::Remove(9));
    assert!(!bot.is_admin(9));
    assert_eq!(bot.get_deputy_admins(), vec![3, 4]);
}

#[test]
fn mounting_again_gives_a_fresh_plugin() {
    let mut bot = Bot::build(&conf(1, None));
    bot.mount_main("p", "1");
    bot.disable_plugin("p").unwrap();
    bot.set_plugin_access_control("p", true).unwrap();
    bot.mount_main("p", "2");
    let info = bot.get_plugin_info();
    assert_eq!(info.len(), 1);
    assert!(info[0].enabled && !info[0].access_control);
    assert_eq!(info[0].version, "2");
}

#[test]
fn event_index_gives_null_for_missing() {
    let e = msg_event(None, 5);
    assert!(json_eq(&e.index("self_id"), &Json::Int(10)));
    assert!(json_eq(&e.index("nothing"), &Json::Null));
    let r = RequestEvent::new(obj(vec![
        ("time", Json::Int(1)),
        ("self_id", Json::Int(2)),
        ("post_type", s("request")),
        ("request_type", s("group")),
    ]))
    .unwrap();
    assert!(json_eq(&r.index("request_type"), &s("group")));
    assert!(r.index("flag").is_null());
}

#[test]
fn build_keeps_server() {
    let conf = KoviConf::new(
        5,
        None,
        Server { host: Host::Domain("example.org".to_string()), port: 3001, access_token: "t".to_string(), secure: true },
        false,
    );
    let bot = Bot::build(&conf);
    assert_eq!(bot.information.server.port, 3001);
    assert_eq!(bot.information.server.access_token, "t");
    assert!(bot.information.server.secure);
    assert!(matches!(&bot.information.server.host, Host::Domain(d) if d == "example.org"));
}

#[test]
fn replies_go_by_group_id() {
    let mut e = msg_event(Some(555), 42);
    e.message_type = "private".to_string();
    let r = e.reply_text_request("hi");
    assert!(json_eq(r.params.get("message_type").unwrap(), &s("group")));
    assert!(json_eq(r.params.get("group_id").unwrap(), &Json::Int(555)));
    let mut p = msg_event(None, 42);
    p.message_type = "group".to_string();
    let r = p.reply_text_request("hi");
    assert!(json_eq(r.params.get("message_type").unwrap(), &s("private")));
    assert!(json_eq(r.params.get("user_id").unwrap(), &Json::Int(42)));
}

#[test]
fn saved_statuses_restore_plugins() {
    let mut b = Bot::build(&conf(1, None));
    b.mount_main("a", "1");
    b.mount_main("b", "1");
    b.set_plugin_startup_ref("a", false).unwrap();
    b.set_plugin_access_control("b", true).unwrap();
    b.set_plugin_access_control_list("b", false, SetAccessControlList::Adds(vec![3, 4])).unwrap();
    let saved = b.plugin_statuses();
    let mut b2 = Bot::build(&conf(1, None));
    b2.mount_main("b", "2");
    b2.mount_main("c", "1");
    b2.set_plugin_startup_use_file_ref(&saved);
    let info = b2.get_plugin_info();
    assert!(info[0].access_control && info[0].enable_on_startup);
    assert_eq!(info[0].access_list.friends, vec![3, 4]);
    assert_eq!(info[0].version, "2");
    assert!(!info[1].access_control && info[1].enable_on_startup);
}
