//! How the bot routes what reaches it: which reports it reads, which plugins and listeners
//! a message event goes to, and when its event loop ends.
use vstd::prelude::*;
use crate::api::{ApiReturn, SendApi, SendApiV};
use crate::bot::{access_allows, is_access, Bot, BotV, PluginV};
use crate::event::{MsgEvent, MsgEventV};
use crate::json::{str_eq, Json, JsonV};

verus! {

/// An event inside the bot.
#[derive(Debug)]
pub enum InternalEvent {
    /// An event of the bot itself.
    KoviEvent(KoviEvent),
    /// A report of the OneBot server, as the text it sent.
    OneBotEvent(String),
}

/// An event of the bot itself.
#[derive(Debug)]
pub enum KoviEvent {
    /// The bot is shutting down.
    Drop,
}

/// What the event loop does with an event.
#[derive(Debug)]
pub enum RunStep {
    /// Hand the event to a task of its own and wait for the next one.
    Dispatch,
    /// Hand the event to a task, wait for that task, and end the loop.
    DispatchAndStop,
}

/// The step the event loop takes for an event: it ends after a shutdown event.
pub fn run_step(event: &InternalEvent) -> (r: RunStep)
    ensures
        r == (match event {
            InternalEvent::KoviEvent(KoviEvent::Drop) => RunStep::DispatchAndStop,
            InternalEvent::OneBotEvent(_) => RunStep::Dispatch,
        }),
{
    match event {
        InternalEvent::KoviEvent(KoviEvent::Drop) => RunStep::DispatchAndStop,
        InternalEvent::OneBotEvent(_) => RunStep::Dispatch,
    }
}

/// Where a report of the OneBot server goes.
#[derive(Debug)]
pub enum EventRoute {
    /// A lifecycle meta event: the bot asks who it is logged in as.
    Lifecycle,
    /// Another meta event (a heartbeat among them): nothing is done.
    OtherMeta,
    /// A message event.
    Message,
    /// A message that the bot itself sent.
    MessageSent,
    /// A notice event.
    Notice,
    /// A request event.
    Request,
    /// A report of a kind the bot does not know.
    Unknown,
    /// A report without `post_type`.
    MissingPostType,
    /// A report whose `post_type` is not a string.
    InvalidPostType,
}

/// The route of a report: a report with `meta_event_type` is a meta event (a lifecycle one
/// when that value is the string `lifecycle`); any other goes by its `post_type`.
pub open spec fn event_route(j: JsonV) -> EventRoute {
    match j.get("meta_event_type"@) {
        Some(m) => if m.as_str() == Some("lifecycle"@) {
            EventRoute::Lifecycle
        } else {
            EventRoute::OtherMeta
        },
        None => match j.get("post_type"@) {
            None => EventRoute::MissingPostType,
            Some(p) => match p.as_str() {
                None => EventRoute::InvalidPostType,
                Some(s) => if s == "message"@ {
                    EventRoute::Message
                } else if s == "message_sent"@ {
                    EventRoute::MessageSent
                } else if s == "notice"@ {
                    EventRoute::Notice
                } else if s == "request"@ {
                    EventRoute::Request
                } else {
                    EventRoute::Unknown
                },
            },
        },
    }
}

/// The route of a report (see `event_route`).
pub fn route_event(j: &Json) -> (r: EventRoute)
    ensures
        r == event_route(j@),
{
    match j.get("meta_event_type") {
        Some(m) => {
            match m.as_str() {
                Some(s) => if str_eq(s, "lifecycle") {
                    EventRoute::Lifecycle
                } else {
                    EventRoute::OtherMeta
                },
                None => EventRoute::OtherMeta,
            }
        },
        None => match j.get("post_type") {
            None => EventRoute::MissingPostType,
            Some(p) => match p.as_str() {
                None => EventRoute::InvalidPostType,
                Some(s) => if str_eq(s, "message") {
                    EventRoute::Message
                } else if str_eq(s, "message_sent") {
                    EventRoute::MessageSent
                } else if str_eq(s, "notice") {
                    EventRoute::Notice
                } else if str_eq(s, "request") {
                    EventRoute::Request
                } else {
                    EventRoute::Unknown
                },
            },
        },
    }
}

/// The kinds of message listener a plugin registers.
#[derive(Debug, Clone, Copy)]
pub enum ListenKind {
    /// Every message.
    Msg,
    /// Private messages.
    PrivateMsg,
    /// Group messages.
    GroupMsg,
    /// Messages of an administrator.
    AdminMsg,
}

/// Whether a listener of this kind runs for a message event.
pub open spec fn listener_runs(b: BotV, kind: ListenKind, e: MsgEventV) -> bool {
    match kind {
        ListenKind::Msg => true,
        ListenKind::PrivateMsg => e.group_id is None,
        ListenKind::GroupMsg => e.group_id is Some,
        ListenKind::AdminMsg => e.user_id == b.main_admin || b.deputy_admins.contains(e.user_id as i64),
    }
}

/// Whether a listener of this kind runs for a message event (see `listener_runs`).
pub fn listen_accepts(bot: &Bot, kind: ListenKind, e: &MsgEvent) -> (r: bool)
    ensures
        r == listener_runs(bot@, kind, e@),
{
    match kind {
        ListenKind::Msg => true,
        ListenKind::PrivateMsg => !e.is_group(),
        ListenKind::GroupMsg => e.is_group(),
        ListenKind::AdminMsg => bot.is_admin(e.user_id),
    }
}

/// The positions, in order, of the plugins that a message event may reach.
pub open spec fn access_targets(ps: Seq<PluginV>, e: MsgEventV) -> Seq<int>
    decreases ps.len(),
{
    if ps.len() == 0 {
        Seq::empty()
    } else if access_allows(ps.last(), e) {
        access_targets(ps.drop_last(), e).push(ps.len() - 1)
    } else {
        access_targets(ps.drop_last(), e)
    }
}

/// The positions of the plugins that a message event goes to (see `access_targets`).
pub fn msg_targets(bot: &Bot, e: &MsgEvent) -> (r: Vec<usize>)
    ensures
        r@.len() == access_targets(bot@.plugins, e@).len(),
        forall|k: int| 0 <= k < r@.len() ==> #[trigger] r@[k] as int == access_targets(bot@.plugins, e@)[k],
{
    let ghost ps = bot@.plugins;
    let mut r: Vec<usize> = Vec::new();
    let mut i: usize = 0;
    assert(ps.take(0) =~= Seq::<PluginV>::empty());
    while i < bot.plugins.len()
        invariant
            0 <= i <= bot.plugins@.len(),
            ps == bot@.plugins,
            ps.len() == bot.plugins@.len(),
            r@.len() == access_targets(ps.take(i as int), e@).len(),
            forall|k: int| 0 <= k < r@.len() ==> #[trigger] r@[k] as int == access_targets(ps.take(i as int), e@)[k],
        decreases bot.plugins@.len() - i,
    {
        let ghost before = access_targets(ps.take(i as int), e@);
        assert(ps.take(i + 1).drop_last() =~= ps.take(i as int));
        assert(ps.take(i + 1).last() == bot.plugins@[i as int]@);
        if is_access(&bot.plugins[i], e) {
            r.push(i);
            assert(access_targets(ps.take(i + 1), e@) == before.push(i as int));
        } else {
            assert(access_targets(ps.take(i + 1), e@) == before);
        }
        i = i + 1;
    }
    assert(ps.take(bot.plugins@.len() as int) =~= ps);
    r
}

/// The request the bot sends when the server reports a lifecycle event: who is it logged
/// in as.
pub fn lifecycle_request() -> (r: SendApi)
    ensures
        r@ == (SendApiV { action: "get_login_info"@, params: JsonV::Object(Seq::empty()), echo: "kovi"@ }),
{
    SendApi::new("get_login_info", Json::empty_object(), "kovi")
}

/// Why the bot could not learn who it is logged in as.
#[derive(Debug)]
pub enum LoginInfoError {
    /// The server refused the request.
    Refused,
    /// The reply has no `user_id`.
    MissingUserId,
    /// The reply's `user_id` is not an integer.
    UserIdNotInteger,
    /// The reply has no `nickname`.
    MissingNickname,
}

/// The account and nickname in the reply to the lifecycle request.
pub fn login_info(reply: &Result<ApiReturn, ApiReturn>) -> (r: Result<(i64, Json), LoginInfoError>)
    ensures
        match reply {
            Err(_) => r matches Err(LoginInfoError::Refused),
            Ok(ret) => match ret.data@.get("user_id"@) {
                None => r matches Err(LoginInfoError::MissingUserId),
                Some(u) => match u.as_i64() {
                    None => r matches Err(LoginInfoError::UserIdNotInteger),
                    Some(id) => match ret.data@.get("nickname"@) {
                        None => r matches Err(LoginInfoError::MissingNickname),
                        Some(n) => r matches Ok((rid, rn)) && rid == id && rn@ == n,
                    },
                },
            },
        },
{
    match reply {
        Err(_) => Err(LoginInfoError::Refused),
        Ok(ret) => match ret.data.get("user_id") {
            None => Err(LoginInfoError::MissingUserId),
            Some(u) => match u.as_i64() {
                None => Err(LoginInfoError::UserIdNotInteger),
                Some(id) => match ret.data.get("nickname") {
                    None => Err(LoginInfoError::MissingNickname),
                    Some(n) => Ok((id, crate::message::copy_json(n))),
                },
            },
        },
    }
}

/// Brings up what the bot needs before it runs.
pub struct InitManager;

/// What to bring up.
#[derive(Debug)]
pub struct InitPlan {
    /// Start the async runtime.
    pub start_runtime: bool,
    /// Start the task manager.
    pub start_task_manager: bool,
}

impl InitManager {
    /// What to bring up, given what already runs: each part that is not yet up.
    pub fn init(runtime_ready: bool, task_manager_ready: bool) -> (r: InitPlan)
        ensures
            r.start_runtime == !runtime_ready,
            r.start_task_manager == !task_manager_ready,
    {
        InitPlan { start_runtime: !runtime_ready, start_task_manager: !task_manager_ready }
    }
}

/// A message event goes to exactly the plugins whose access control lets it through, each
/// once, in the order they were mounted.
pub proof fn law_targets_are_the_allowed_plugins(ps: Seq<PluginV>, e: MsgEventV)
    ensures
        forall|k: int| 0 <= k < access_targets(ps, e).len() ==> 0 <= #[trigger] access_targets(ps, e)[k] < ps.len()
            && access_allows(ps[access_targets(ps, e)[k]], e),
        forall|k: int, l: int| 0 <= k < l < access_targets(ps, e).len() ==> access_targets(ps, e)[k] < access_targets(ps, e)[l],
        forall|j: int| 0 <= j < ps.len() && access_allows(#[trigger] ps[j], e) ==> access_targets(ps, e).contains(j),
    decreases ps.len(),
{
    if ps.len() > 0 {
        let dl = ps.drop_last();
        law_targets_are_the_allowed_plugins(dl, e);
        let t = access_targets(dl, e);
        assert forall|j: int| 0 <= j < ps.len() && access_allows(#[trigger] ps[j], e) implies access_targets(ps, e).contains(j) by {
            if j < ps.len() - 1 {
                assert(dl[j] == ps[j]);
                assert(t.contains(j));
                let k = choose|k: int| 0 <= k < t.len() && t[k] == j;
                if access_allows(ps.last(), e) {
                    assert(access_targets(ps, e)[k] == j);
                }
            } else {
                assert(access_targets(ps, e)[t.len() as int] == j);
            }
        }
    }
}


/// An administrator listener runs for a message event exactly when its sender is the main
/// administrator or one of the deputy administrators: the main administrator's messages reach
/// it whoever the deputies are, and so do a deputy's; nobody else's do.
pub proof fn law_admin_listener_runs_for_admins(b: BotV, e: MsgEventV)
    ensures
        e.user_id == b.main_admin ==> listener_runs(b, ListenKind::AdminMsg, e),
        b.deputy_admins.contains(e.user_id as i64) ==> listener_runs(b, ListenKind::AdminMsg, e),
        e.user_id != b.main_admin && !b.deputy_admins.contains(e.user_id as i64) ==> !listener_runs(
            b,
            ListenKind::AdminMsg,
            e,
        ),
        listener_runs(b, ListenKind::AdminMsg, e) ==> listener_runs(b, ListenKind::Msg, e),
{
}

} // verus!
