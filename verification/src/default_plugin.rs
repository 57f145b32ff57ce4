//! The commands of the bot's built-in administration plugin, and the texts it answers with.
use vstd::prelude::*;
use crate::bot::{Bot, PluginV};
use crate::json::str_eq;
use crate::text::{join, join_strings, push_decimal, push_digits, spec_decimal, spec_digits, string_push_str};

verus! {

/// A command of the built-in plugin, which only administrators may give.
#[derive(Debug, Clone, Copy)]
pub enum DefaultCommand {
    /// `.h` or `.help`.
    Help,
    /// `.p` or `.plugin`.
    PluginHelp,
    /// `.p list` or `.plugin list`.
    PluginList,
    /// `.s` or `.status`.
    Status,
    /// `.a` or `.about`.
    About,
    /// `.e` or `.exit`: asks to confirm.
    Exit,
    /// `.e -y` or `.exit -y`: shuts the bot down.
    ExitConfirm,
}

/// The command a message text gives, if any: the whole text must be the command.
pub open spec fn command_of(t: Seq<char>) -> Option<DefaultCommand> {
    if t == ".h"@ || t == ".help"@ {
        Some(DefaultCommand::Help)
    } else if t == ".p"@ || t == ".plugin"@ {
        Some(DefaultCommand::PluginHelp)
    } else if t == ".p list"@ || t == ".plugin list"@ {
        Some(DefaultCommand::PluginList)
    } else if t == ".s"@ || t == ".status"@ {
        Some(DefaultCommand::Status)
    } else if t == ".a"@ || t == ".about"@ {
        Some(DefaultCommand::About)
    } else if t == ".e"@ || t == ".exit"@ {
        Some(DefaultCommand::Exit)
    } else if t == ".e -y"@ || t == ".exit -y"@ {
        Some(DefaultCommand::ExitConfirm)
    } else {
        None
    }
}

/// The command a message text gives (see `command_of`).
pub fn parse_command(text: &str) -> (r: Option<DefaultCommand>)
    ensures
        r == command_of(text@),
{
    if str_eq(text, ".h") || str_eq(text, ".help") {
        Some(DefaultCommand::Help)
    } else if str_eq(text, ".p") || str_eq(text, ".plugin") {
        Some(DefaultCommand::PluginHelp)
    } else if str_eq(text, ".p list") || str_eq(text, ".plugin list") {
        Some(DefaultCommand::PluginList)
    } else if str_eq(text, ".s") || str_eq(text, ".status") {
        Some(DefaultCommand::Status)
    } else if str_eq(text, ".a") || str_eq(text, ".about") {
        Some(DefaultCommand::About)
    } else if str_eq(text, ".e") || str_eq(text, ".exit") {
        Some(DefaultCommand::Exit)
    } else if str_eq(text, ".e -y") || str_eq(text, ".exit -y") {
        Some(DefaultCommand::ExitConfirm)
    } else {
        None
    }
}

/// The fixed answer to a command; the plugin list and the status are made up when asked.
pub open spec fn fixed_answer(c: DefaultCommand) -> Option<Seq<char>> {
    match c {
        DefaultCommand::Help => Some("〓 Kovi 帮助 〓.p 插件操作\n\n.s 框架状态\n.h 显示帮助\n.a 关于框架\n.e 退出进程"@),
        DefaultCommand::PluginHelp => Some("〓 Kovi 插件命令 〓\n.p list\n.p on/off <name?>"@),
        DefaultCommand::About => Some("〓 关于 Kovi 〓\nKovi 是一个 OneBot 插件框架\n使用 Rust 所写\n开源地址：https://github.com/Threkork/Kovi"@),
        DefaultCommand::Exit => Some("真的要关闭 KoviBot 吗？\n关闭请输入.exit -y"@),
        DefaultCommand::ExitConfirm => Some("KoviBot 已关闭"@),
        DefaultCommand::PluginList => None,
        DefaultCommand::Status => None,
    }
}

/// The fixed answer to a command (see `fixed_answer`).
pub fn fixed_reply(c: DefaultCommand) -> (r: Option<&'static str>)
    ensures
        match r {
            Some(t) => fixed_answer(c) == Some(t@),
            None => fixed_answer(c) is None,
        },
{
    match c {
        DefaultCommand::Help => Some("〓 Kovi 帮助 〓.p 插件操作\n\n.s 框架状态\n.h 显示帮助\n.a 关于框架\n.e 退出进程"),
        DefaultCommand::PluginHelp => Some("〓 Kovi 插件命令 〓\n.p list\n.p on/off <name?>"),
        DefaultCommand::About => Some("〓 关于 Kovi 〓\nKovi 是一个 OneBot 插件框架\n使用 Rust 所写\n开源地址：https://github.com/Threkork/Kovi"),
        DefaultCommand::Exit => Some("真的要关闭 KoviBot 吗？\n关闭请输入.exit -y"),
        DefaultCommand::ExitConfirm => Some("KoviBot 已关闭"),
        DefaultCommand::PluginList => None,
        DefaultCommand::Status => None,
    }
}

/// The names of the plugins, in order.
pub open spec fn plugin_names(ps: Seq<PluginV>) -> Seq<Seq<char>> {
    Seq::new(ps.len(), |i: int| ps[i].name)
}

/// The answer to `.p list`: a title line, then one line per plugin name.
pub fn plugin_list_text(bot: &Bot) -> (r: String)
    ensures
        r@ == join(seq!["〓 Kovi 插件列表 〓"@] + plugin_names(bot@.plugins), "\n"@),
{
    let mut lines: Vec<String> = Vec::new();
    lines.push("〓 Kovi 插件列表 〓".to_owned());
    let mut i: usize = 0;
    while i < bot.plugins.len()
        invariant
            0 <= i <= bot.plugins@.len(),
            lines@.len() == i + 1,
            lines@[0]@ == "〓 Kovi 插件列表 〓"@,
            forall|k: int| 0 <= k < i ==> #[trigger] lines@[k + 1]@ == bot.plugins@[k].name@,
        decreases bot.plugins@.len() - i,
    {
        lines.push(bot.plugins[i].name.clone());
        i = i + 1;
    }
    let r = join_strings(&lines, "\n");
    assert(Seq::new(lines@.len(), |k: int| lines@[k]@) =~= seq!["〓 Kovi 插件列表 〓"@] + plugin_names(bot@.plugins)) by {
        assert forall|k: int| 1 <= k < lines@.len() implies #[trigger] lines@[k]@ == (seq!["〓 Kovi 插件列表 〓"@] + plugin_names(bot@.plugins))[k] by {
            assert(lines@[(k - 1) + 1]@ == bot.plugins@[k - 1].name@);
        }
    }
    r
}

/// How long the bot has run, from its seconds, as the status shows it: days, hours and
/// minutes once it has run a day, hours and minutes once it has run an hour, else minutes
/// (each unit cut toward zero, as Rust divides).
pub open spec fn duration_text(seconds: int) -> Seq<char> {
    if seconds < 0 {
        spec_decimal(-((-seconds) / 60)) + "min"@
    } else {
        let m = seconds / 60;
        let h = m / 60;
        let d = h / 24;
        if d > 0 {
            spec_digits(d as nat) + "d "@ + spec_digits((h % 24) as nat) + "h "@ + spec_digits((m % 60) as nat) + "min"@
        } else if h > 0 {
            spec_digits(h as nat) + "h "@ + spec_digits((m % 60) as nat) + "min"@
        } else {
            spec_digits(m as nat) + "min"@
        }
    }
}

/// How long the bot has run (see `duration_text`).
pub fn format_duration(seconds: i64) -> (r: String)
    ensures
        r@ == duration_text(seconds as int),
{
    let mut s = String::new();
    if seconds < 0 {
        let a: u64 = ((-(seconds + 1)) as u64) + 1;
        let mabs: u64 = a / 60;
        let m: i64 = -(mabs as i64);
        push_decimal(&mut s, m);
        string_push_str(&mut s, "min");
        assert(a == -(seconds as int));
        if m == 0 {
            assert(spec_decimal(m as int) == spec_decimal(-((-(seconds as int)) / 60)));
        }
        return s;
    }
    let secs: u64 = seconds as u64;
    let m: u64 = secs / 60;
    let h: u64 = m / 60;
    let d: u64 = h / 24;
    if d > 0 {
        push_digits(&mut s, d);
        string_push_str(&mut s, "d ");
        push_digits(&mut s, h % 24);
        string_push_str(&mut s, "h ");
        push_digits(&mut s, m % 60);
        string_push_str(&mut s, "min");
    } else if h > 0 {
        push_digits(&mut s, h);
        string_push_str(&mut s, "h ");
        push_digits(&mut s, m % 60);
        string_push_str(&mut s, "min");
    } else {
        push_digits(&mut s, m);
        string_push_str(&mut s, "min");
    }
    s
}

/// The answer to `.s`: a title line, then the nickname, the friend and group counts, how long
/// the bot has run, and the framework version.
pub open spec fn status_lines(nickname: Seq<char>, friends: nat, groups: nat, seconds: int, version: Seq<char>) -> Seq<char> {
    join(seq![
        "〓 Kovi 框架实时状态 〓"@,
        "昵称: "@ + nickname,
        "列表: "@ + spec_digits(friends) + " 好友，"@ + spec_digits(groups) + " 群"@,
        "运行: "@ + duration_text(seconds),
        "框架: v"@ + version,
    ], "\n"@)
}

/// The answer to `.s` (see `status_lines`).
pub fn status_text(nickname: &str, friends: usize, groups: usize, seconds: i64, version: &str) -> (r: String)
    ensures
        r@ == status_lines(nickname@, friends as nat, groups as nat, seconds as int, version@),
{
    let mut lines: Vec<String> = Vec::new();
    lines.push("〓 Kovi 框架实时状态 〓".to_owned());
    let mut l1 = String::new();
    string_push_str(&mut l1, "昵称: ");
    string_push_str(&mut l1, nickname);
    lines.push(l1);
    let mut l2 = String::new();
    string_push_str(&mut l2, "列表: ");
    push_digits(&mut l2, friends as u64);
    string_push_str(&mut l2, " 好友，");
    push_digits(&mut l2, groups as u64);
    string_push_str(&mut l2, " 群");
    lines.push(l2);
    let mut l3 = String::new();
    string_push_str(&mut l3, "运行: ");
    let d = format_duration(seconds);
    string_push_str(&mut l3, d.as_str());
    lines.push(l3);
    let mut l4 = String::new();
    string_push_str(&mut l4, "框架: v");
    string_push_str(&mut l4, version);
    lines.push(l4);
    let r = join_strings(&lines, "\n");
    assert(Seq::new(lines@.len(), |k: int| lines@[k]@) =~= seq![
        "〓 Kovi 框架实时状态 〓"@,
        "昵称: "@ + nickname@,
        "列表: "@ + spec_digits(friends as nat) + " 好友，"@ + spec_digits(groups as nat) + " 群"@,
        "运行: "@ + duration_text(seconds as int),
        "框架: v"@ + version@,
    ]);
    r
}


/// Each short command is the same command as its long form, and the long forms name help,
/// plugin help, the plugin list, status, about, exit and confirmed exit.
pub proof fn law_short_commands_match_long()
    ensures
        command_of(".h"@) == command_of(".help"@),
        command_of(".p"@) == command_of(".plugin"@),
        command_of(".p list"@) == command_of(".plugin list"@),
        command_of(".s"@) == command_of(".status"@),
        command_of(".a"@) == command_of(".about"@),
        command_of(".e"@) == command_of(".exit"@),
        command_of(".e -y"@) == command_of(".exit -y"@),
        command_of(".help"@) == Some(DefaultCommand::Help),
        command_of(".plugin"@) == Some(DefaultCommand::PluginHelp),
        command_of(".plugin list"@) == Some(DefaultCommand::PluginList),
        command_of(".status"@) == Some(DefaultCommand::Status),
        command_of(".about"@) == Some(DefaultCommand::About),
        command_of(".exit"@) == Some(DefaultCommand::Exit),
        command_of(".exit -y"@) == Some(DefaultCommand::ExitConfirm),
{
    reveal_strlit(".h");
    reveal_strlit(".help");
    reveal_strlit(".p");
    reveal_strlit(".plugin");
    reveal_strlit(".p list");
    reveal_strlit(".plugin list");
    reveal_strlit(".s");
    reveal_strlit(".status");
    reveal_strlit(".a");
    reveal_strlit(".about");
    reveal_strlit(".e");
    reveal_strlit(".exit");
    reveal_strlit(".e -y");
    reveal_strlit(".exit -y");
    assert(".h"@.len() == 2 && ".h"@[1] == 'h');
    assert(".help"@.len() == 5 && ".help"@[1] == 'h');
    assert(".help"@[2] == 'e');
    assert(".p"@.len() == 2 && ".p"@[1] == 'p');
    assert(".plugin"@.len() == 7 && ".plugin"@[1] == 'p');
    assert(".plugin"@[2] == 'l');
    assert(".p list"@.len() == 7 && ".p list"@[1] == 'p');
    assert(".p list"@[2] == ' ');
    assert(".plugin list"@.len() == 12 && ".plugin list"@[1] == 'p');
    assert(".plugin list"@[2] == 'l');
    assert(".s"@.len() == 2 && ".s"@[1] == 's');
    assert(".status"@.len() == 7 && ".status"@[1] == 's');
    assert(".status"@[2] == 't');
    assert(".a"@.len() == 2 && ".a"@[1] == 'a');
    assert(".about"@.len() == 6 && ".about"@[1] == 'a');
    assert(".about"@[2] == 'b');
    assert(".e"@.len() == 2 && ".e"@[1] == 'e');
    assert(".exit"@.len() == 5 && ".exit"@[1] == 'e');
    assert(".exit"@[2] == 'x');
    assert(".e -y"@.len() == 5 && ".e -y"@[1] == 'e');
    assert(".e -y"@[2] == ' ');
    assert(".exit -y"@.len() == 8 && ".exit -y"@[1] == 'e');
    assert(".exit -y"@[2] == 'x');
}

} // verus!
