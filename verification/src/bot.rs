//! The bot: its configuration, its administrators and the state of its plugins, with the
//! access rules that decide which messages reach a plugin.
use vstd::prelude::*;
use crate::error::BotError;
use crate::event::MsgEventV;
use crate::json::str_eq;
use crate::text::string_push_str;

verus! {

/// The configuration file's `config` table.
#[derive(Debug)]
pub struct Config {
    pub main_admin: i64,
    pub admins: Vec<i64>,
    pub debug: bool,
}

/// An IP address: four bytes, or eight 16-bit groups.
#[derive(Debug, Clone, Copy, PartialEq, Eq)]
pub enum IpAddress {
    V4([u8; 4]),
    V6([u16; 8]),
}

/// Where the OneBot server is: an IP address or a domain name.
#[derive(Debug)]
pub enum Host {
    IpAddr(IpAddress),
    Domain(String),
}

/// How to reach the OneBot server.
#[derive(Debug)]
pub struct Server {
    pub host: Host,
    pub port: u16,
    pub access_token: String,
    pub secure: bool,
}

/// The configuration of a bot.
#[derive(Debug)]
pub struct KoviConf {
    pub config: Config,
    pub server: Server,
}

/// The administrators of a bot and its server.
#[derive(Debug)]
pub struct BotInformation {
    pub main_admin: i64,
    pub deputy_admins: Vec<i64>,
    pub server: Server,
}

/// How a plugin's access list is read: only the listed may use it, or all but the listed.
#[derive(Debug, Clone, Copy, PartialEq, Eq)]
pub enum AccessControlMode {
    BlackList,
    WhiteList,
}

/// The friends and groups on a plugin's access list.
#[derive(Debug)]
pub struct AccessList {
    pub friends: Vec<i64>,
    pub groups: Vec<i64>,
}

/// How the administrators change.
#[derive(Debug)]
pub enum SetAdmin {
    /// Add one deputy administrator.
    Add(i64),
    /// Add several deputy administrators.
    Adds(Vec<i64>),
    /// Remove a deputy administrator.
    Remove(i64),
    /// Remove several deputy administrators.
    Removes(Vec<i64>),
    /// Replace the deputy administrators by these.
    Changes(Vec<i64>),
}

/// How an access list changes.
#[derive(Debug)]
pub enum SetAccessControlList {
    /// Add one entry.
    Add(i64),
    /// Add several entries.
    Adds(Vec<i64>),
    /// Remove one entry.
    Remove(i64),
    /// Remove several entries.
    Removes(Vec<i64>),
    /// Replace the list by these entries.
    Changes(Vec<i64>),
}

/// The state of a plugin that its startup file keeps.
#[derive(Debug)]
pub struct PluginStatus {
    pub enable_on_startup: bool,
    pub access_control: bool,
    pub list_mode: AccessControlMode,
    pub access_list: AccessList,
}

/// What a plugin reports about itself.
#[derive(Debug)]
pub struct PluginInfo {
    pub name: String,
    pub version: String,
    /// Whether the plugin runs.
    pub enabled: bool,
    /// Whether the plugin runs when the bot starts.
    pub enable_on_startup: bool,
    /// Whether its access list is in force.
    pub access_control: bool,
    pub list_mode: AccessControlMode,
    pub access_list: AccessList,
}

/// The mathematical value of a plugin's state.
pub struct PluginV {
    pub name: Seq<char>,
    pub version: Seq<char>,
    pub enable_on_startup: bool,
    pub enabled: bool,
    pub access_control: bool,
    pub list_mode: AccessControlMode,
    pub friends: Set<i64>,
    pub groups: Set<i64>,
}

/// The state of a mounted plugin.
#[derive(Debug)]
pub struct PluginState {
    pub name: String,
    pub version: String,
    pub enable_on_startup: bool,
    pub enabled: bool,
    pub access_control: bool,
    pub list_mode: AccessControlMode,
    pub access_list: AccessList,
}

impl View for PluginState {
    type V = PluginV;

    open spec fn view(&self) -> PluginV {
        PluginV {
            name: self.name@,
            version: self.version@,
            enable_on_startup: self.enable_on_startup,
            enabled: self.enabled,
            access_control: self.access_control,
            list_mode: self.list_mode,
            friends: self.access_list.friends@.to_set(),
            groups: self.access_list.groups@.to_set(),
        }
    }
}

/// The mathematical value of a host.
pub enum HostV {
    IpAddr(IpAddress),
    Domain(Seq<char>),
}

/// The mathematical value of a server's description.
pub struct ServerV {
    pub host: HostV,
    pub port: u16,
    pub access_token: Seq<char>,
    pub secure: bool,
}

impl View for Server {
    type V = ServerV;

    open spec fn view(&self) -> ServerV {
        ServerV {
            host: match self.host {
                Host::IpAddr(a) => HostV::IpAddr(a),
                Host::Domain(d) => HostV::Domain(d@),
            },
            port: self.port,
            access_token: self.access_token@,
            secure: self.secure,
        }
    }
}

/// The mathematical value of a bot.
pub struct BotV {
    pub main_admin: int,
    pub server: ServerV,
    pub deputy_admins: Seq<i64>,
    pub plugins: Seq<PluginV>,
}

/// A bot: its information and its mounted plugins, each name once.
#[derive(Debug)]
pub struct Bot {
    pub information: BotInformation,
    pub plugins: Vec<PluginState>,
}

/// The views of a list of plugins.
pub open spec fn plugin_views(ps: Seq<PluginState>) -> Seq<PluginV> {
    Seq::new(ps.len(), |i: int| ps[i]@)
}

impl View for Bot {
    type V = BotV;

    open spec fn view(&self) -> BotV {
        BotV {
            main_admin: self.information.main_admin as int,
            server: self.information.server@,
            deputy_admins: self.information.deputy_admins@,
            plugins: plugin_views(self.plugins@),
        }
    }
}

/// No two plugins share a name.
pub open spec fn names_distinct(ps: Seq<PluginV>) -> bool {
    forall|i: int, j: int| 0 <= i < ps.len() && 0 <= j < ps.len() && i != j ==> ps[i].name != ps[j].name
}

/// The plugins' names are distinct and their access lists hold each entry once.
pub open spec fn plugins_wf(ps: Seq<PluginState>) -> bool {
    &&& names_distinct(plugin_views(ps))
    &&& forall|i: int| 0 <= i < ps.len() ==> (#[trigger] ps[i]).access_list.friends@.no_duplicates()
        && ps[i].access_list.groups@.no_duplicates()
}

/// Whether a plugin of this name is mounted.
pub open spec fn has_plugin(ps: Seq<PluginV>, name: Seq<char>) -> bool {
    exists|i: int| 0 <= i < ps.len() && ps[i].name == name
}

/// The position of the plugin of this name.
pub open spec fn plugin_index(ps: Seq<PluginV>, name: Seq<char>) -> int {
    choose|i: int| 0 <= i < ps.len() && ps[i].name == name
}

/// A plugin's state after changing it with `f`, everything else kept.
pub open spec fn with_startup(p: PluginV, b: bool) -> PluginV {
    PluginV { enable_on_startup: b, ..p }
}

/// The state of a freshly mounted plugin: runs, and runs at startup, with no access control,
/// in white-list mode, with empty lists.
pub open spec fn fresh_plugin(name: Seq<char>, version: Seq<char>) -> PluginV {
    PluginV {
        name,
        version,
        enable_on_startup: true,
        enabled: true,
        access_control: false,
        list_mode: AccessControlMode::WhiteList,
        friends: Set::empty(),
        groups: Set::empty(),
    }
}

/// The error text for a plugin that is not mounted, as the startup setters word it.
pub open spec fn startup_not_found(name: Seq<char>) -> Seq<char> {
    "Plugin "@ + name + " not found"@
}

/// The entries of `d` that are not in `ids`, in order.
pub open spec fn without_any(d: Seq<i64>, ids: Seq<i64>) -> Seq<i64>
    decreases d.len(),
{
    if d.len() == 0 {
        Seq::empty()
    } else if ids.contains(d.last()) {
        without_any(d.drop_last(), ids)
    } else {
        without_any(d.drop_last(), ids).push(d.last())
    }
}

/// The deputies after a change.
pub open spec fn admins_after(d: Seq<i64>, change: SetAdmin) -> Seq<i64> {
    match change {
        SetAdmin::Add(id) => d.push(id),
        SetAdmin::Adds(ids) => d + ids@,
        SetAdmin::Remove(id) => without_any(d, seq![id]),
        SetAdmin::Removes(ids) => without_any(d, ids@),
        SetAdmin::Changes(ids) => ids@,
    }
}

/// The set after a change to an access list.
pub open spec fn list_after(s: Set<i64>, change: SetAccessControlList) -> Set<i64> {
    match change {
        SetAccessControlList::Add(id) => s.insert(id),
        SetAccessControlList::Adds(ids) => s.union(ids@.to_set()),
        SetAccessControlList::Remove(id) => s.remove(id),
        SetAccessControlList::Removes(ids) => s.difference(ids@.to_set()),
        SetAccessControlList::Changes(ids) => ids@.to_set(),
    }
}

/// Whether a message event may reach a plugin: always when its access control is off;
/// otherwise a group message by its group and a private one by its sender, who must be on the
/// list in white-list mode and off it in black-list mode.
pub open spec fn access_allows(p: PluginV, e: MsgEventV) -> bool {
    if !p.access_control {
        true
    } else {
        let listed = match e.group_id {
            Some(g) => p.groups.contains(g as i64),
            None => p.friends.contains(e.sender.user_id as i64),
        };
        match p.list_mode {
            AccessControlMode::WhiteList => listed,
            AccessControlMode::BlackList => !listed,
        }
    }
}

/// Whether `v` holds `x`.
pub fn vec_contains(v: &Vec<i64>, x: i64) -> (r: bool)
    ensures
        r == v@.contains(x),
{
    let mut i: usize = 0;
    while i < v.len()
        invariant
            0 <= i <= v@.len(),
            forall|k: int| 0 <= k < i ==> v@[k] != x,
        decreases v@.len() - i,
    {
        if v[i] == x {
            assert(v@[i as int] == x);
            return true;
        }
        i = i + 1;
    }
    false
}

proof fn lemma_push_contains(s: Seq<i64>, x: i64, y: i64)
    ensures
        s.push(x).contains(y) <==> (s.contains(y) || y == x),
{
    if s.contains(y) {
        let k = choose|k: int| 0 <= k < s.len() && s[k] == y;
        assert(s.push(x)[k] == y);
    }
    if y == x {
        assert(s.push(x)[s.len() as int] == x);
    }
    if s.push(x).contains(y) {
        let k = choose|k: int| 0 <= k < s.len() + 1 && s.push(x)[k] == y;
        if k < s.len() {
            assert(s[k] == y);
        }
    }
}

/// Adds `x` to a list that holds each entry once, unless it is there.
fn set_insert(v: &mut Vec<i64>, x: i64)
    requires
        old(v)@.no_duplicates(),
    ensures
        final(v)@.no_duplicates(),
        final(v)@.to_set() == old(v)@.to_set().insert(x),
{
    if !vec_contains(v, x) {
        v.push(x);
        proof { old(v)@.lemma_push_to_set_commute(x); }
    } else {
        assert(old(v)@.to_set().insert(x) =~= old(v)@.to_set());
    }
}

/// The entries of `v` that `keep` leaves, in order.
fn retain_not_in(v: &Vec<i64>, drop: &Vec<i64>) -> (r: Vec<i64>)
    requires
        v@.no_duplicates(),
    ensures
        r@.no_duplicates(),
        r@.to_set() == v@.to_set().difference(drop@.to_set()),
{
    let mut out: Vec<i64> = Vec::new();
    let mut i: usize = 0;
    while i < v.len()
        invariant
            0 <= i <= v@.len(),
            v@.no_duplicates(),
            out@.no_duplicates(),
            forall|x: i64| out@.contains(x) <==> (v@.take(i as int).contains(x) && !drop@.contains(x)),
        decreases v@.len() - i,
    {
        let x = v[i];
        let ghost old_out = out@;
        if !vec_contains(drop, x) {
            assert(!out@.contains(x)) by {
                if out@.contains(x) {
                    let k = choose|k: int| 0 <= k < i && v@[k] == x;
                    assert(v@.take(i as int)[k] == x);
                }
            }
            out.push(x);
        }
        assert forall|y: i64| out@.contains(y) <==> (v@.take(i + 1).contains(y) && !drop@.contains(y)) by {
            assert(v@.take(i + 1) =~= v@.take(i as int).push(x));
            lemma_push_contains(v@.take(i as int), x, y);
            lemma_push_contains(old_out, x, y);
        }
        i = i + 1;
    }
    assert(v@.take(v@.len() as int) =~= v@);
    assert(out@.to_set() =~= v@.to_set().difference(drop@.to_set()));
    out
}

/// A list holding each of `ids` once.
fn dedup(ids: &Vec<i64>) -> (r: Vec<i64>)
    ensures
        r@.no_duplicates(),
        r@.to_set() == ids@.to_set(),
{
    let mut out: Vec<i64> = Vec::new();
    let mut i: usize = 0;
    while i < ids.len()
        invariant
            0 <= i <= ids@.len(),
            out@.no_duplicates(),
            out@.to_set() == ids@.take(i as int).to_set(),
        decreases ids@.len() - i,
    {
        set_insert(&mut out, ids[i]);
        assert(ids@.take(i + 1) =~= ids@.take(i as int).push(ids@[i as int]));
        proof { ids@.take(i as int).lemma_push_to_set_commute(ids@[i as int]); }
        i = i + 1;
    }
    assert(ids@.take(ids@.len() as int) =~= ids@);
    out
}

/// Applies a change to an access list that holds each entry once.
fn apply_list_change(v: &mut Vec<i64>, change: SetAccessControlList)
    requires
        old(v)@.no_duplicates(),
    ensures
        final(v)@.no_duplicates(),
        final(v)@.to_set() == list_after(old(v)@.to_set(), change),
{
    match change {
        SetAccessControlList::Add(id) => set_insert(v, id),
        SetAccessControlList::Adds(ids) => {
            let mut i: usize = 0;
            while i < ids.len()
                invariant
                    0 <= i <= ids@.len(),
                    v@.no_duplicates(),
                    v@.to_set() == old(v)@.to_set().union(ids@.take(i as int).to_set()),
                decreases ids@.len() - i,
            {
                set_insert(v, ids[i]);
                assert(ids@.take(i + 1) =~= ids@.take(i as int).push(ids@[i as int]));
                proof { ids@.take(i as int).lemma_push_to_set_commute(ids@[i as int]); }
                assert(v@.to_set() =~= old(v)@.to_set().union(ids@.take(i + 1).to_set()));
                i = i + 1;
            }
            assert(ids@.take(ids@.len() as int) =~= ids@);
        },
        SetAccessControlList::Remove(id) => {
            let mut one: Vec<i64> = Vec::new();
            one.push(id);
            let r = retain_not_in(v, &one);
            proof {
                assert(one@ =~= Seq::<i64>::empty().push(id));
                Seq::<i64>::empty().lemma_push_to_set_commute(id);
                assert(Seq::<i64>::empty().to_set() =~= Set::<i64>::empty());
            }
            assert(old(v)@.to_set().difference(one@.to_set()) =~= old(v)@.to_set().remove(id));
            *v = r;
        },
        SetAccessControlList::Removes(ids) => {
            let r = retain_not_in(v, &ids);
            *v = r;
        },
        SetAccessControlList::Changes(ids) => {
            let r = dedup(&ids);
            *v = r;
        },
    }
}

impl Bot {
    /// A bot with the administrators and server of `conf` and no plugins.
    pub fn build(conf: &KoviConf) -> (r: Bot)
        ensures
            r@.main_admin == conf.config.main_admin,
            r@.server == conf.server@,
            r@.deputy_admins == conf.config.admins@,
            r@.plugins == Seq::<PluginV>::empty(),
            plugins_wf(r.plugins@),
    {
        let r = Bot {
            information: BotInformation {
                main_admin: conf.config.main_admin,
                deputy_admins: conf.config.admins.clone(),
                server: copy_server(&conf.server),
            },
            plugins: Vec::new(),
        };
        assert(plugin_views(r.plugins@) =~= Seq::<PluginV>::empty());
        r
    }
}

/// A copy of a server's description.
pub fn copy_server(s: &Server) -> (r: Server)
    ensures
        r@ == s@,
{
    let host = match &s.host {
        Host::IpAddr(a) => Host::IpAddr(*a),
        Host::Domain(d) => Host::Domain(d.clone()),
    };
    Server { host, port: s.port, access_token: s.access_token.clone(), secure: s.secure }
}

/// A copy of an access list.
pub fn copy_access_list(a: &AccessList) -> (r: AccessList)
    ensures
        r.friends@ == a.friends@,
        r.groups@ == a.groups@,
{
    AccessList { friends: a.friends.clone(), groups: a.groups.clone() }
}

/// Plugins that keep their names, with lists that hold each entry once, keep the
/// well-formedness.
proof fn lemma_same_names_wf(a: Seq<PluginState>, b: Seq<PluginState>)
    requires
        plugins_wf(a),
        a.len() == b.len(),
        forall|k: int| 0 <= k < a.len() ==> (#[trigger] b[k]).name@ == a[k].name@
            && b[k].access_list.friends@.no_duplicates()
            && b[k].access_list.groups@.no_duplicates(),
    ensures
        plugins_wf(b),
{
    assert forall|i: int, j: int| 0 <= i < b.len() && 0 <= j < b.len() && i != j implies
        plugin_views(b)[i].name != plugin_views(b)[j].name by {
        assert(plugin_views(a)[i].name != plugin_views(a)[j].name);
        assert(b[i].name@ == a[i].name@);
        assert(b[j].name@ == a[j].name@);
    }
}

/// Putting back at `i` a plugin of the same name, with lists that hold each entry once, keeps
/// the well-formedness.
proof fn lemma_update_wf(a: Seq<PluginState>, i: int, p: PluginState)
    requires
        plugins_wf(a),
        0 <= i < a.len(),
        p.name@ == a[i].name@,
        p.access_list.friends@.no_duplicates(),
        p.access_list.groups@.no_duplicates(),
    ensures
        plugins_wf(a.update(i, p)),
        plugin_views(a.update(i, p)) == plugin_views(a).update(i, p@),
{
    let b = a.update(i, p);
    assert forall|k: int| 0 <= k < a.len() implies (#[trigger] b[k]).name@ == a[k].name@
        && b[k].access_list.friends@.no_duplicates()
        && b[k].access_list.groups@.no_duplicates() by {
        if k != i {
            assert(a[k].access_list.friends@.no_duplicates());
        }
    }
    lemma_same_names_wf(a, b);
    assert(plugin_views(b) =~= plugin_views(a).update(i, p@));
}

impl Bot {
    /// The plugins are well formed (see `plugins_wf`).
    pub open spec fn wf(&self) -> bool {
        plugins_wf(self.plugins@)
    }

    /// The position of the plugin named `name`.
    fn find(&self, name: &str) -> (r: Option<usize>)
        requires
            self.wf(),
        ensures
            match r {
                Some(i) => i < self@.plugins.len() && self@.plugins[i as int].name == name@
                    && has_plugin(self@.plugins, name@) && i == plugin_index(self@.plugins, name@),
                None => !has_plugin(self@.plugins, name@),
            },
    {
        let mut i: usize = 0;
        while i < self.plugins.len()
            invariant
                0 <= i <= self.plugins@.len(),
                self.wf(),
                forall|k: int| 0 <= k < i ==> self.plugins@[k].name@ != name@,
            decreases self.plugins@.len() - i,
        {
            if str_eq(self.plugins[i].name.as_str(), name) {
                proof {
                    let ps = self@.plugins;
                    assert(ps[i as int].name == name@);
                    let j = plugin_index(ps, name@);
                    assert(0 <= j < ps.len() && ps[j].name == name@);
                    assert(j == i);
                }
                return Some(i);
            }
            i = i + 1;
        }
        proof {
            if has_plugin(self@.plugins, name@) {
                let k = choose|k: int| 0 <= k < self@.plugins.len() && self@.plugins[k].name == name@;
                assert(self.plugins@[k].name@ == name@);
            }
        }
        None
    }

    /// Mounts a plugin: a fresh state under `name`, replacing the state of a plugin mounted
    /// under that name before.
    pub fn mount_main(&mut self, name: &str, version: &str)
        requires
            old(self).wf(),
        ensures
            final(self).wf(),
            final(self)@.main_admin == old(self)@.main_admin,
            final(self)@.server == old(self)@.server,
            final(self)@.deputy_admins == old(self)@.deputy_admins,
            has_plugin(old(self)@.plugins, name@) ==> final(self)@.plugins == old(self)@.plugins.update(
                plugin_index(old(self)@.plugins, name@),
                fresh_plugin(name@, version@),
            ),
            !has_plugin(old(self)@.plugins, name@) ==> final(self)@.plugins == old(self)@.plugins.push(
                fresh_plugin(name@, version@),
            ),
    {
        let p = PluginState {
            name: name.to_owned(),
            version: version.to_owned(),
            enable_on_startup: true,
            enabled: true,
            access_control: false,
            list_mode: AccessControlMode::WhiteList,
            access_list: AccessList { friends: Vec::new(), groups: Vec::new() },
        };
        assert(p.access_list.friends@.to_set() =~= Set::<i64>::empty());
        assert(p.access_list.groups@.to_set() =~= Set::<i64>::empty());
        match self.find(name) {
            Some(i) => {
                let _ = self.plugins.remove(i);
                self.plugins.insert(i, p);
                assert(plugin_views(self.plugins@) =~= plugin_views(old(self).plugins@).update(i as int, p@));
            },
            None => {
                self.plugins.push(p);
                assert(plugin_views(self.plugins@) =~= plugin_views(old(self).plugins@).push(p@));
            },
        }
    }

    /// Sets whether every plugin runs at startup.
    pub fn set_all_plugin_startup_ref(&mut self, enabled: bool)
        requires
            old(self).wf(),
        ensures
            final(self).wf(),
            final(self)@.main_admin == old(self)@.main_admin,
            final(self)@.server == old(self)@.server,
            final(self)@.deputy_admins == old(self)@.deputy_admins,
            final(self)@.plugins.len() == old(self)@.plugins.len(),
            forall|i: int| 0 <= i < old(self)@.plugins.len() ==> #[trigger] final(self)@.plugins[i]
                == with_startup(old(self)@.plugins[i], enabled),
    {
        let mut i: usize = 0;
        while i < self.plugins.len()
            invariant
                0 <= i <= self.plugins@.len(),
                self.plugins@.len() == old(self).plugins@.len(),
                self.information == old(self).information,
                plugins_wf(self.plugins@),
                forall|k: int| 0 <= k < i ==> #[trigger] self@.plugins[k] == with_startup(old(self)@.plugins[k], enabled),
                forall|k: int| i <= k < self.plugins@.len() ==> #[trigger] self.plugins@[k] == old(self).plugins@[k],
            decreases self.plugins@.len() - i,
        {
            let ghost before = self.plugins@;
            let ghost bv = self@.plugins;
            assert(forall|k: int| 0 <= k < i ==> bv[k] == with_startup(old(self)@.plugins[k], enabled));
            let mut p = self.plugins.remove(i);
            p.enable_on_startup = enabled;
            self.plugins.insert(i, p);
            assert(self.plugins@ =~= before.update(i as int, p));
            assert(plugin_views(self.plugins@) =~= plugin_views(before).update(i as int, p@));
            proof { lemma_same_names_wf(before, self.plugins@); }
            assert(self@.plugins[i as int] == with_startup(old(self)@.plugins[i as int], enabled));
            assert forall|k: int| 0 <= k < i + 1 implies #[trigger] self@.plugins[k] == with_startup(old(self)@.plugins[k], enabled) by {
                if k < i {
                    assert(bv[k] == with_startup(old(self)@.plugins[k], enabled));
                }
            }
            i = i + 1;
        }
    }

    /// The bot with every plugin set to run at startup or not.
    pub fn set_all_plugin_startup(self, enabled: bool) -> (r: Bot)
        requires
            self.wf(),
        ensures
            r.wf(),
            r@.main_admin == self@.main_admin,
            r@.server == self@.server,
            r@.deputy_admins == self@.deputy_admins,
            r@.plugins.len() == self@.plugins.len(),
            forall|i: int| 0 <= i < self@.plugins.len() ==> #[trigger] r@.plugins[i]
                == with_startup(self@.plugins[i], enabled),
    {
        let mut b = self;
        b.set_all_plugin_startup_ref(enabled);
        b
    }

    /// Sets whether the plugin `name` runs at startup; an error when it is not mounted.
    pub fn set_plugin_startup_ref(&mut self, name: &str, enabled: bool) -> (r: Result<(), BotError>)
        requires
            old(self).wf(),
        ensures
            final(self).wf(),
            final(self)@.main_admin == old(self)@.main_admin,
            final(self)@.server == old(self)@.server,
            final(self)@.deputy_admins == old(self)@.deputy_admins,
            has_plugin(old(self)@.plugins, name@) ==> r is Ok && final(self)@.plugins == old(self)@.plugins.update(
                plugin_index(old(self)@.plugins, name@),
                with_startup(old(self)@.plugins[plugin_index(old(self)@.plugins, name@)], enabled),
            ),
            !has_plugin(old(self)@.plugins, name@) ==> final(self)@ == old(self)@
                && (r matches Err(BotError::PluginNotFound(t)) && t@ == startup_not_found(name@)),
    {
        match self.find(name) {
            Some(i) => {
                let ghost before = self.plugins@;
                let mut p = self.plugins.remove(i);
                p.enable_on_startup = enabled;
                self.plugins.insert(i, p);
                assert(self.plugins@ =~= before.update(i as int, p));
                assert(plugin_views(self.plugins@) =~= plugin_views(before).update(i as int, p@));
                Ok(())
            },
            None => {
                let mut t = String::new();
                string_push_str(&mut t, "Plugin ");
                string_push_str(&mut t, name);
                string_push_str(&mut t, " not found");
                Err(BotError::PluginNotFound(t))
            },
        }
    }

    /// The bot with the plugin `name` set to run at startup or not; an error when it is not mounted.
    pub fn set_plugin_startup(self, name: &str, enabled: bool) -> (r: Result<Bot, BotError>)
        requires
            self.wf(),
        ensures
            has_plugin(self@.plugins, name@) ==> (r matches Ok(b) && b.wf() && b@.main_admin == self@.main_admin && b@.server == self@.server
                && b@.deputy_admins == self@.deputy_admins && b@.plugins == self@.plugins.update(
                plugin_index(self@.plugins, name@),
                with_startup(self@.plugins[plugin_index(self@.plugins, name@)], enabled),
            )),
            !has_plugin(self@.plugins, name@) ==> (r matches Err(BotError::PluginNotFound(t))
                && t@ == startup_not_found(name@)),
    {
        let mut b = self;
        match b.set_plugin_startup_ref(name, enabled) {
            Ok(()) => Ok(b),
            Err(e) => Err(e),
        }
    }

    /// Whether the plugin `name` runs; an error when it is not mounted.
    pub fn is_plugin_enable(&self, name: &str) -> (r: Result<bool, BotError>)
        requires
            self.wf(),
        ensures
            has_plugin(self@.plugins, name@) ==> r == Ok::<bool, BotError>(
                self@.plugins[plugin_index(self@.plugins, name@)].enabled),
            !has_plugin(self@.plugins, name@) ==> (r matches Err(BotError::PluginNotFound(t)) && t@ == name@),
    {
        match self.find(name) {
            Some(i) => Ok(self.plugins[i].enabled),
            None => Err(BotError::PluginNotFound(name.to_owned())),
        }
    }
}

/// A plugin's state with its running flag set.
pub open spec fn with_enabled(p: PluginV, b: bool) -> PluginV {
    PluginV { enabled: b, ..p }
}

/// A plugin's state with its access control switched.
pub open spec fn with_access_control(p: PluginV, b: bool) -> PluginV {
    PluginV { access_control: b, ..p }
}

/// A plugin's state with its list mode set.
pub open spec fn with_mode(p: PluginV, m: AccessControlMode) -> PluginV {
    PluginV { list_mode: m, ..p }
}

/// A plugin's state after a change to its group list (`is_group`) or its friend list.
pub open spec fn with_list(p: PluginV, is_group: bool, change: SetAccessControlList) -> PluginV {
    if is_group {
        PluginV { groups: list_after(p.groups, change), ..p }
    } else {
        PluginV { friends: list_after(p.friends, change), ..p }
    }
}

/// A plugin's state with the startup state a status gives it.
pub open spec fn with_status(p: PluginV, st: PluginStatus) -> PluginV {
    PluginV {
        enable_on_startup: st.enable_on_startup,
        access_control: st.access_control,
        list_mode: st.list_mode,
        friends: st.access_list.friends@.to_set(),
        groups: st.access_list.groups@.to_set(),
        ..p
    }
}

/// The status listed under `name`, the first if several are.
pub open spec fn status_for(sts: Seq<(String, PluginStatus)>, name: Seq<char>) -> Option<PluginStatus> {
    if exists|i: int| 0 <= i < sts.len() && sts[i].0@ == name && (forall|j: int| 0 <= j < i ==> sts[j].0@ != name) {
        let i = choose|i: int| 0 <= i < sts.len() && sts[i].0@ == name && (forall|j: int| 0 <= j < i ==> sts[j].0@ != name);
        Some(sts[i].1)
    } else {
        None
    }
}

/// The plugins with each given the status listed under its name, if one is.
pub open spec fn loaded(ps: Seq<PluginV>, sts: Seq<(String, PluginStatus)>) -> Seq<PluginV> {
    Seq::new(
        ps.len(),
        |i: int|
            match status_for(sts, ps[i].name) {
                Some(st) => with_status(ps[i], st),
                None => ps[i],
            },
    )
}

/// The error that a plugin-name setter gives for a plugin that is not mounted.
pub open spec fn not_found(r: Result<(), BotError>, name: Seq<char>) -> bool {
    r matches Err(BotError::PluginNotFound(t)) && t@ == name
}

/// `d` without the entries in `ids`.
fn remove_all(d: &Vec<i64>, ids: &Vec<i64>) -> (r: Vec<i64>)
    ensures
        r@ == without_any(d@, ids@),
{
    let mut out: Vec<i64> = Vec::new();
    let mut i: usize = 0;
    while i < d.len()
        invariant
            0 <= i <= d@.len(),
            out@ == without_any(d@.take(i as int), ids@),
        decreases d@.len() - i,
    {
        assert(d@.take(i + 1).drop_last() =~= d@.take(i as int));
        if !vec_contains(ids, d[i]) {
            out.push(d[i]);
        }
        i = i + 1;
    }
    assert(d@.take(d@.len() as int) =~= d@);
    out
}

impl Bot {
    /// Marks the plugin `name` stopped, whatever its state was; an error when it is not
    /// mounted.
    pub fn disable_plugin(&mut self, name: &str) -> (r: Result<(), BotError>)
        requires
            old(self).wf(),
        ensures
            final(self).wf(),
            final(self)@.main_admin == old(self)@.main_admin,
            final(self)@.server == old(self)@.server,
            final(self)@.deputy_admins == old(self)@.deputy_admins,
            has_plugin(old(self)@.plugins, name@) ==> r is Ok && final(self)@.plugins == old(self)@.plugins.update(
                plugin_index(old(self)@.plugins, name@),
                with_enabled(old(self)@.plugins[plugin_index(old(self)@.plugins, name@)], false),
            ),
            !has_plugin(old(self)@.plugins, name@) ==> final(self)@ == old(self)@ && not_found(r, name@),
    {
        self.set_enabled(name, false)
    }

    /// Marks the plugin `name` running, whatever its state was; an error when it is not
    /// mounted.
    pub fn enable_plugin(&mut self, name: &str) -> (r: Result<(), BotError>)
        requires
            old(self).wf(),
        ensures
            final(self).wf(),
            final(self)@.main_admin == old(self)@.main_admin,
            final(self)@.server == old(self)@.server,
            final(self)@.deputy_admins == old(self)@.deputy_admins,
            has_plugin(old(self)@.plugins, name@) ==> r is Ok && final(self)@.plugins == old(self)@.plugins.update(
                plugin_index(old(self)@.plugins, name@),
                with_enabled(old(self)@.plugins[plugin_index(old(self)@.plugins, name@)], true),
            ),
            !has_plugin(old(self)@.plugins, name@) ==> final(self)@ == old(self)@ && not_found(r, name@),
    {
        self.set_enabled(name, true)
    }

    fn set_enabled(&mut self, name: &str, b: bool) -> (r: Result<(), BotError>)
        requires
            old(self).wf(),
        ensures
            final(self).wf(),
            final(self)@.main_admin == old(self)@.main_admin,
            final(self)@.server == old(self)@.server,
            final(self)@.deputy_admins == old(self)@.deputy_admins,
            has_plugin(old(self)@.plugins, name@) ==> r is Ok && final(self)@.plugins == old(self)@.plugins.update(
                plugin_index(old(self)@.plugins, name@),
                with_enabled(old(self)@.plugins[plugin_index(old(self)@.plugins, name@)], b),
            ),
            !has_plugin(old(self)@.plugins, name@) ==> final(self)@ == old(self)@ && not_found(r, name@),
    {
        match self.find(name) {
            Some(i) => {
                let ghost before = self.plugins@;
                let mut p = self.plugins.remove(i);
                p.enabled = b;
                self.plugins.insert(i, p);
                assert(self.plugins@ =~= before.update(i as int, p));
                proof { lemma_update_wf(before, i as int, p); }
                Ok(())
            },
            None => Err(BotError::PluginNotFound(name.to_owned())),
        }
    }

    /// Switches the access control of the plugin `name`; an error when it is not mounted.
    pub fn set_plugin_access_control(&mut self, name: &str, enable: bool) -> (r: Result<(), BotError>)
        requires
            old(self).wf(),
        ensures
            final(self).wf(),
            final(self)@.main_admin == old(self)@.main_admin,
            final(self)@.server == old(self)@.server,
            final(self)@.deputy_admins == old(self)@.deputy_admins,
            has_plugin(old(self)@.plugins, name@) ==> r is Ok && final(self)@.plugins == old(self)@.plugins.update(
                plugin_index(old(self)@.plugins, name@),
                with_access_control(old(self)@.plugins[plugin_index(old(self)@.plugins, name@)], enable),
            ),
            !has_plugin(old(self)@.plugins, name@) ==> final(self)@ == old(self)@ && not_found(r, name@),
    {
        match self.find(name) {
            Some(i) => {
                let ghost before = self.plugins@;
                let mut p = self.plugins.remove(i);
                p.access_control = enable;
                self.plugins.insert(i, p);
                assert(self.plugins@ =~= before.update(i as int, p));
                proof { lemma_update_wf(before, i as int, p); }
                Ok(())
            },
            None => Err(BotError::PluginNotFound(name.to_owned())),
        }
    }

    /// Sets the list mode of the plugin `name`; an error when it is not mounted.
    pub fn set_plugin_access_control_mode(&mut self, name: &str, mode: AccessControlMode) -> (r: Result<(), BotError>)
        requires
            old(self).wf(),
        ensures
            final(self).wf(),
            final(self)@.main_admin == old(self)@.main_admin,
            final(self)@.server == old(self)@.server,
            final(self)@.deputy_admins == old(self)@.deputy_admins,
            has_plugin(old(self)@.plugins, name@) ==> r is Ok && final(self)@.plugins == old(self)@.plugins.update(
                plugin_index(old(self)@.plugins, name@),
                with_mode(old(self)@.plugins[plugin_index(old(self)@.plugins, name@)], mode),
            ),
            !has_plugin(old(self)@.plugins, name@) ==> final(self)@ == old(self)@ && not_found(r, name@),
    {
        match self.find(name) {
            Some(i) => {
                let ghost before = self.plugins@;
                let mut p = self.plugins.remove(i);
                p.list_mode = mode;
                self.plugins.insert(i, p);
                assert(self.plugins@ =~= before.update(i as int, p));
                proof { lemma_update_wf(before, i as int, p); }
                Ok(())
            },
            None => Err(BotError::PluginNotFound(name.to_owned())),
        }
    }

    /// Changes the group list (`is_group`) or the friend list of the plugin `name`; an error
    /// when it is not mounted.
    pub fn set_plugin_access_control_list(
        &mut self,
        name: &str,
        is_group: bool,
        change: SetAccessControlList,
    ) -> (r: Result<(), BotError>)
        requires
            old(self).wf(),
        ensures
            final(self).wf(),
            final(self)@.main_admin == old(self)@.main_admin,
            final(self)@.server == old(self)@.server,
            final(self)@.deputy_admins == old(self)@.deputy_admins,
            has_plugin(old(self)@.plugins, name@) ==> r is Ok && final(self)@.plugins == old(self)@.plugins.update(
                plugin_index(old(self)@.plugins, name@),
                with_list(old(self)@.plugins[plugin_index(old(self)@.plugins, name@)], is_group, change),
            ),
            !has_plugin(old(self)@.plugins, name@) ==> final(self)@ == old(self)@ && not_found(r, name@),
    {
        match self.find(name) {
            Some(i) => {
                let ghost before = self.plugins@;
                let mut p = self.plugins.remove(i);
                assert(p == before[i as int]);
                if is_group {
                    apply_list_change(&mut p.access_list.groups, change);
                } else {
                    apply_list_change(&mut p.access_list.friends, change);
                }
                self.plugins.insert(i, p);
                assert(self.plugins@ =~= before.update(i as int, p));
                proof { lemma_update_wf(before, i as int, p); }
                Ok(())
            },
            None => Err(BotError::PluginNotFound(name.to_owned())),
        }
    }

    /// Changes the deputy administrators.
    pub fn set_deputy_admins(&mut self, change: SetAdmin)
        requires
            old(self).wf(),
        ensures
            final(self).wf(),
            final(self)@.main_admin == old(self)@.main_admin,
            final(self)@.server == old(self)@.server,
            final(self)@.plugins == old(self)@.plugins,
            final(self)@.deputy_admins == admins_after(old(self)@.deputy_admins, change),
    {
        match change {
            SetAdmin::Add(id) => self.information.deputy_admins.push(id),
            SetAdmin::Adds(ids) => {
                let mut i: usize = 0;
                while i < ids.len()
                    invariant
                        0 <= i <= ids@.len(),
                        self.plugins == old(self).plugins,
                        self.information.main_admin == old(self).information.main_admin,
                        self.information.server == old(self).information.server,
                        self.information.deputy_admins@ == old(self).information.deputy_admins@ + ids@.take(i as int),
                    decreases ids@.len() - i,
                {
                    self.information.deputy_admins.push(ids[i]);
                    assert(old(self).information.deputy_admins@ + ids@.take(i + 1)
                        =~= (old(self).information.deputy_admins@ + ids@.take(i as int)).push(ids@[i as int]));
                    i = i + 1;
                }
                assert(ids@.take(ids@.len() as int) =~= ids@);
            },
            SetAdmin::Remove(id) => {
                let mut one: Vec<i64> = Vec::new();
                one.push(id);
                assert(one@ =~= seq![id]);
                let r = remove_all(&self.information.deputy_admins, &one);
                self.information.deputy_admins = r;
            },
            SetAdmin::Removes(ids) => {
                let r = remove_all(&self.information.deputy_admins, &ids);
                self.information.deputy_admins = r;
            },
            SetAdmin::Changes(ids) => self.information.deputy_admins = ids,
        }
    }

    /// The main administrator.
    pub fn get_main_admin(&self) -> (r: i64)
        ensures
            r == self@.main_admin,
    {
        self.information.main_admin
    }

    /// The deputy administrators.
    pub fn get_deputy_admins(&self) -> (r: Vec<i64>)
        ensures
            r@ == self@.deputy_admins,
    {
        self.information.deputy_admins.clone()
    }

    /// All administrators: the main one first, then the deputies.
    pub fn get_all_admin(&self) -> (r: Vec<i64>)
        ensures
            r@ == seq![self.information.main_admin] + self@.deputy_admins,
    {
        let mut admins: Vec<i64> = Vec::new();
        admins.push(self.information.main_admin);
        let mut i: usize = 0;
        while i < self.information.deputy_admins.len()
            invariant
                0 <= i <= self@.deputy_admins.len(),
                admins@ == seq![self.information.main_admin] + self@.deputy_admins.take(i as int),
            decreases self@.deputy_admins.len() - i,
        {
            admins.push(self.information.deputy_admins[i]);
            assert(seq![self.information.main_admin] + self@.deputy_admins.take(i + 1)
                =~= (seq![self.information.main_admin] + self@.deputy_admins.take(i as int)).push(self@.deputy_admins[i as int]));
            i = i + 1;
        }
        assert(self@.deputy_admins.take(self@.deputy_admins.len() as int) =~= self@.deputy_admins);
        admins
    }

    /// Whether `user_id` is the main administrator or a deputy.
    pub fn is_admin(&self, user_id: i64) -> (r: bool)
        ensures
            r == (user_id == self@.main_admin || self@.deputy_admins.contains(user_id)),
    {
        user_id == self.information.main_admin || vec_contains(&self.information.deputy_admins, user_id)
    }
}

/// Whether a message event may reach a plugin (see `access_allows`).
pub fn is_access(plugin: &PluginState, event: &crate::event::MsgEvent) -> (r: bool)
    ensures
        r == access_allows(plugin@, event@),
{
    if !plugin.access_control {
        return true;
    }
    let listed = match event.group_id {
        Some(g) => vec_contains(&plugin.access_list.groups, g),
        None => vec_contains(&plugin.access_list.friends, event.sender.user_id),
    };
    match plugin.list_mode {
        AccessControlMode::WhiteList => listed,
        AccessControlMode::BlackList => !listed,
    }
}

/// The position of the first status listed under `name`.
fn find_status(sts: &Vec<(String, PluginStatus)>, name: &str) -> (r: Option<usize>)
    ensures
        match r {
            Some(i) => i < sts@.len() && status_for(sts@, name@) == Some(sts@[i as int].1),
            None => status_for(sts@, name@) is None,
        },
{
    let mut i: usize = 0;
    while i < sts.len()
        invariant
            0 <= i <= sts@.len(),
            forall|j: int| 0 <= j < i ==> sts@[j].0@ != name@,
        decreases sts@.len() - i,
    {
        if str_eq(sts[i].0.as_str(), name) {
            proof {
                let k = choose|k: int| 0 <= k < sts@.len() && sts@[k].0@ == name@ && (forall|j: int| 0 <= j < k ==> sts@[j].0@ != name@);
                assert(k == i) by {
                    if k < i {
                        assert(sts@[k].0@ != name@);
                    } else if k > i {
                        assert(sts@[i as int].0@ != name@);
                    }
                }
            }
            return Some(i);
        }
        i = i + 1;
    }
    None
}

impl Bot {
    /// Gives each mounted plugin the startup state listed under its name (the first entry if
    /// several are); plugins not listed keep theirs. The lists are kept once per entry.
    pub fn set_plugin_startup_use_file_ref(&mut self, statuses: &Vec<(String, PluginStatus)>)
        requires
            old(self).wf(),
        ensures
            final(self).wf(),
            final(self)@.main_admin == old(self)@.main_admin,
            final(self)@.server == old(self)@.server,
            final(self)@.deputy_admins == old(self)@.deputy_admins,
            final(self)@.plugins == loaded(old(self)@.plugins, statuses@),
    {
        let mut i: usize = 0;
        while i < self.plugins.len()
            invariant
                0 <= i <= self.plugins@.len(),
                self.plugins@.len() == old(self).plugins@.len(),
                self.information == old(self).information,
                plugins_wf(self.plugins@),
                forall|k: int| 0 <= k < i ==> #[trigger] self@.plugins[k] == match status_for(statuses@, old(self)@.plugins[k].name) {
                    Some(st) => with_status(old(self)@.plugins[k], st),
                    None => old(self)@.plugins[k],
                },
                forall|k: int| i <= k < self.plugins@.len() ==> #[trigger] self.plugins@[k] == old(self).plugins@[k],
            decreases self.plugins@.len() - i,
        {
            let ghost before = self.plugins@;
            let ghost bv = self@.plugins;
            assert(forall|k: int| 0 <= k < i ==> bv[k] == match status_for(statuses@, old(self)@.plugins[k].name) {
                Some(st) => with_status(old(self)@.plugins[k], st),
                None => old(self)@.plugins[k],
            });
            assert(self.plugins@[i as int] == old(self).plugins@[i as int]);
            match find_status(statuses, self.plugins[i].name.as_str()) {
                Some(j) => {
                    let st = &statuses[j].1;
                    let friends = dedup(&st.access_list.friends);
                    let groups = dedup(&st.access_list.groups);
                    let mut p = self.plugins.remove(i);
                    p.enable_on_startup = st.enable_on_startup;
                    p.access_control = st.access_control;
                    p.list_mode = st.list_mode;
                    p.access_list = AccessList { friends, groups };
                    self.plugins.insert(i, p);
                    assert(self.plugins@ =~= before.update(i as int, p));
                    proof { lemma_update_wf(before, i as int, p); }
                    assert(p@ =~= with_status(old(self)@.plugins[i as int], *st));
                },
                None => {},
            }
            assert forall|k: int| 0 <= k < i + 1 implies #[trigger] self@.plugins[k] == match status_for(statuses@, old(self)@.plugins[k].name) {
                Some(st) => with_status(old(self)@.plugins[k], st),
                None => old(self)@.plugins[k],
            } by {
                if k < i {
                    assert(bv[k] == self@.plugins[k]);
                }
            }
            i = i + 1;
        }
        assert(self@.plugins =~= loaded(old(self)@.plugins, statuses@));
    }

    /// The bot with each mounted plugin given the startup state listed under its name (see
    /// `set_plugin_startup_use_file_ref`).
    pub fn set_plugin_startup_use_file(self, statuses: &Vec<(String, PluginStatus)>) -> (r: Bot)
        requires
            self.wf(),
        ensures
            r.wf(),
            r@.main_admin == self@.main_admin,
            r@.server == self@.server,
            r@.deputy_admins == self@.deputy_admins,
            r@.plugins == loaded(self@.plugins, statuses@),
    {
        let mut b = self;
        b.set_plugin_startup_use_file_ref(statuses);
        b
    }

    /// The startup state of each plugin, under its name, in order.
    pub fn plugin_statuses(&self) -> (r: Vec<(String, PluginStatus)>)
        ensures
            statuses_of(self@.plugins, r@),
            r@.len() == self@.plugins.len(),
            forall|i: int| 0 <= i < r@.len() ==> (#[trigger] r@[i]).0@ == self@.plugins[i].name
                && r@[i].1.enable_on_startup == self@.plugins[i].enable_on_startup
                && r@[i].1.access_control == self@.plugins[i].access_control
                && r@[i].1.list_mode == self@.plugins[i].list_mode
                && r@[i].1.access_list.friends@ == self.plugins@[i].access_list.friends@
                && r@[i].1.access_list.groups@ == self.plugins@[i].access_list.groups@,
    {
        let mut out: Vec<(String, PluginStatus)> = Vec::new();
        let mut i: usize = 0;
        while i < self.plugins.len()
            invariant
                0 <= i <= self.plugins@.len(),
                out@.len() == i,
                forall|k: int| 0 <= k < i ==> (#[trigger] out@[k]).0@ == self@.plugins[k].name
                    && out@[k].1.enable_on_startup == self@.plugins[k].enable_on_startup
                    && out@[k].1.access_control == self@.plugins[k].access_control
                    && out@[k].1.list_mode == self@.plugins[k].list_mode
                    && out@[k].1.access_list.friends@ == self.plugins@[k].access_list.friends@
                    && out@[k].1.access_list.groups@ == self.plugins@[k].access_list.groups@,
            decreases self.plugins@.len() - i,
        {
            let p = &self.plugins[i];
            out.push((p.name.clone(), PluginStatus {
                enable_on_startup: p.enable_on_startup,
                access_control: p.access_control,
                list_mode: p.list_mode,
                access_list: copy_access_list(&p.access_list),
            }));
            i = i + 1;
        }
        out
    }

    /// What each plugin reports about itself, in order.
    pub fn get_plugin_info(&self) -> (r: Vec<PluginInfo>)
        ensures
            r@.len() == self@.plugins.len(),
            forall|i: int| 0 <= i < r@.len() ==> (#[trigger] r@[i]).name@ == self@.plugins[i].name
                && r@[i].version@ == self@.plugins[i].version
                && r@[i].enabled == self@.plugins[i].enabled
                && r@[i].enable_on_startup == self@.plugins[i].enable_on_startup
                && r@[i].access_control == self@.plugins[i].access_control
                && r@[i].list_mode == self@.plugins[i].list_mode
                && r@[i].access_list.friends@ == self.plugins@[i].access_list.friends@
                && r@[i].access_list.groups@ == self.plugins@[i].access_list.groups@,
    {
        let mut out: Vec<PluginInfo> = Vec::new();
        let mut i: usize = 0;
        while i < self.plugins.len()
            invariant
                0 <= i <= self.plugins@.len(),
                out@.len() == i,
                forall|k: int| 0 <= k < i ==> (#[trigger] out@[k]).name@ == self@.plugins[k].name
                    && out@[k].version@ == self@.plugins[k].version
                    && out@[k].enabled == self@.plugins[k].enabled
                    && out@[k].enable_on_startup == self@.plugins[k].enable_on_startup
                    && out@[k].access_control == self@.plugins[k].access_control
                    && out@[k].list_mode == self@.plugins[k].list_mode
                    && out@[k].access_list.friends@ == self.plugins@[k].access_list.friends@
                    && out@[k].access_list.groups@ == self.plugins@[k].access_list.groups@,
            decreases self.plugins@.len() - i,
        {
            let p = &self.plugins[i];
            out.push(PluginInfo {
                name: p.name.clone(),
                version: p.version.clone(),
                enabled: p.enabled,
                enable_on_startup: p.enable_on_startup,
                access_control: p.access_control,
                list_mode: p.list_mode,
                access_list: copy_access_list(&p.access_list),
            });
            i = i + 1;
        }
        out
    }
}

impl KoviConf {
    /// A configuration with these administrators (none when `admins` is `None`), server and
    /// debug flag.
    pub fn new(main_admin: i64, admins: Option<Vec<i64>>, server: Server, debug: bool) -> (r: KoviConf)
        ensures
            r.config.main_admin == main_admin,
            r.config.admins@ == match admins {
                Some(a) => a@,
                None => Seq::<i64>::empty(),
            },
            r.config.debug == debug,
            r.server == server,
    {
        let admins = match admins {
            Some(a) => a,
            None => Vec::new(),
        };
        KoviConf { config: Config { main_admin, admins, debug }, server }
    }
}

impl Server {
    /// A server description.
    pub fn new(host: Host, port: u16, access_token: String, secure: bool) -> (r: Server)
        ensures
            r.host == host,
            r.port == port,
            r.access_token == access_token,
            r.secure == secure,
    {
        Server { host, port, access_token, secure }
    }
}


/// The positions, in order, of the plugins that run when the bot starts.
pub open spec fn startup_indices(ps: Seq<PluginV>) -> Seq<int>
    decreases ps.len(),
{
    if ps.len() == 0 {
        Seq::empty()
    } else if ps.last().enable_on_startup {
        startup_indices(ps.drop_last()).push(ps.len() - 1)
    } else {
        startup_indices(ps.drop_last())
    }
}

impl Bot {
    /// The positions of the plugins whose entry points run when the bot starts (see
    /// `startup_indices`).
    pub fn startup_plugins(&self) -> (r: Vec<usize>)
        ensures
            r@.len() == startup_indices(self@.plugins).len(),
            forall|k: int| 0 <= k < r@.len() ==> #[trigger] r@[k] as int == startup_indices(self@.plugins)[k],
    {
        let ghost ps = self@.plugins;
        let mut r: Vec<usize> = Vec::new();
        let mut i: usize = 0;
        assert(ps.take(0) =~= Seq::<PluginV>::empty());
        while i < self.plugins.len()
            invariant
                0 <= i <= self.plugins@.len(),
                ps == self@.plugins,
                ps.len() == self.plugins@.len(),
                r@.len() == startup_indices(ps.take(i as int)).len(),
                forall|k: int| 0 <= k < r@.len() ==> #[trigger] r@[k] as int == startup_indices(ps.take(i as int))[k],
            decreases self.plugins@.len() - i,
        {
            let ghost before = startup_indices(ps.take(i as int));
            assert(ps.take(i + 1).drop_last() =~= ps.take(i as int));
            assert(ps.take(i + 1).last() == self.plugins@[i as int]@);
            if self.plugins[i].enable_on_startup {
                r.push(i);
                assert(startup_indices(ps.take(i + 1)) == before.push(i as int));
            } else {
                assert(startup_indices(ps.take(i + 1)) == before);
            }
            i = i + 1;
        }
        assert(ps.take(self.plugins@.len() as int) =~= ps);
        r
    }
}

/// Where a plugin keeps its data, relative to the working directory: `data/<name>`.
pub fn plugin_data_dir(name: &str) -> (r: String)
    ensures
        r@ == "data/"@ + name@,
{
    let mut r = String::new();
    string_push_str(&mut r, "data/");
    string_push_str(&mut r, name);
    r
}

/// The bot-management calls a running bot offers; they are methods of the bot itself now, and
/// the trait is kept for code that still names it.
pub trait KoviApi {}

/// The log level a configuration asks for when none is set in the environment: `debug` for a
/// debug configuration, `info` otherwise; `None` leaves the level that is set.
pub fn default_log_level(level_already_set: bool, conf: &KoviConf) -> (r: Option<&'static str>)
    ensures
        level_already_set ==> r is None,
        !level_already_set && conf.config.debug ==> (r matches Some(t) && t@ == "debug"@),
        !level_already_set && !conf.config.debug ==> (r matches Some(t) && t@ == "info"@),
{
    if level_already_set {
        None
    } else if conf.config.debug {
        Some("debug")
    } else {
        Some("info")
    }
}

/// The statuses that `Bot::plugin_statuses` gives for these plugins: one per plugin, in
/// order, under its name, with its startup flag, access control, list mode and lists.
pub open spec fn statuses_of(ps: Seq<PluginV>, sts: Seq<(String, PluginStatus)>) -> bool {
    &&& sts.len() == ps.len()
    &&& forall|i: int| 0 <= i < sts.len() ==> {
        &&& (#[trigger] sts[i]).0@ == ps[i].name
        &&& sts[i].1.enable_on_startup == ps[i].enable_on_startup
        &&& sts[i].1.access_control == ps[i].access_control
        &&& sts[i].1.list_mode == ps[i].list_mode
        &&& sts[i].1.access_list.friends@.to_set() == ps[i].friends
        &&& sts[i].1.access_list.groups@.to_set() == ps[i].groups
    }
}

proof fn lemma_saved_status_restores(saved: Seq<PluginV>, sts: Seq<(String, PluginStatus)>, p: PluginV)
    requires
        names_distinct(saved),
        statuses_of(saved, sts),
    ensures
        has_plugin(saved, p.name) ==> ({
            let q = saved[plugin_index(saved, p.name)];
            status_for(sts, p.name) matches Some(st) && with_status(p, st) == PluginV {
                enable_on_startup: q.enable_on_startup,
                access_control: q.access_control,
                list_mode: q.list_mode,
                friends: q.friends,
                groups: q.groups,
                ..p
            }
        }),
        !has_plugin(saved, p.name) ==> status_for(sts, p.name) is None,
{
    if has_plugin(saved, p.name) {
        let k = plugin_index(saved, p.name);
        assert(sts[k].0@ == p.name);
        assert forall|j: int| 0 <= j < k implies sts[j].0@ != p.name by {
            assert(sts[j].0@ == saved[j].name);
        }
        assert(exists|i: int| 0 <= i < sts.len() && sts[i].0@ == p.name && (forall|j: int| 0 <= j < i ==> sts[j].0@ != p.name));
        let i = choose|i: int| 0 <= i < sts.len() && sts[i].0@ == p.name && (forall|j: int| 0 <= j < i ==> sts[j].0@ != p.name);
        assert(i == k) by {
            if i < k {
                assert(sts[i].0@ != p.name);
            } else if i > k {
                assert(sts[k].0@ != p.name);
            }
        }
    } else {
        if exists|i: int| 0 <= i < sts.len() && sts[i].0@ == p.name && (forall|j: int| 0 <= j < i ==> sts[j].0@ != p.name) {
            let i = choose|i: int| 0 <= i < sts.len() && sts[i].0@ == p.name && (forall|j: int| 0 <= j < i ==> sts[j].0@ != p.name);
            assert(saved[i].name == p.name);
        }
    }
}

/// Loading the statuses saved from one bot into any bot keeps its plugins and their order;
/// each plugin that the first bot also has takes that plugin's startup flag, access control,
/// list mode and lists, and keeps its own name, version and running flag; every other plugin
/// is left as it was.
pub proof fn law_saved_statuses_restore(saved: Seq<PluginV>, sts: Seq<(String, PluginStatus)>, ps: Seq<PluginV>)
    requires
        names_distinct(saved),
        statuses_of(saved, sts),
    ensures
        loaded(ps, sts).len() == ps.len(),
        forall|i: int| 0 <= i < ps.len() && has_plugin(saved, ps[i].name) ==> {
            let q = saved[plugin_index(saved, ps[i].name)];
            #[trigger] loaded(ps, sts)[i] == PluginV {
                enable_on_startup: q.enable_on_startup,
                access_control: q.access_control,
                list_mode: q.list_mode,
                friends: q.friends,
                groups: q.groups,
                ..ps[i]
            }
        },
        forall|i: int| 0 <= i < ps.len() && !has_plugin(saved, ps[i].name) ==> #[trigger] loaded(ps, sts)[i] == ps[i],
{
    assert forall|i: int| 0 <= i < ps.len() implies {
        &&& has_plugin(saved, ps[i].name) ==> {
            let q = saved[plugin_index(saved, ps[i].name)];
            #[trigger] loaded(ps, sts)[i] == PluginV {
                enable_on_startup: q.enable_on_startup,
                access_control: q.access_control,
                list_mode: q.list_mode,
                friends: q.friends,
                groups: q.groups,
                ..ps[i]
            }
        }
        &&& !has_plugin(saved, ps[i].name) ==> loaded(ps, sts)[i] == ps[i]
    } by {
        lemma_saved_status_restores(saved, sts, ps[i]);
    }
}

/// With its access control off, a plugin receives every message event.
pub proof fn law_access_off_allows_all(p: PluginV, e: MsgEventV)
    requires
        !p.access_control,
    ensures
        access_allows(p, e),
{
}

/// With access control on, the same lists let through under the white-list mode exactly the
/// message events that they stop under the black-list mode.
pub proof fn law_white_black_complement(p: PluginV, e: MsgEventV)
    requires
        p.access_control,
    ensures
        access_allows(with_mode(p, AccessControlMode::WhiteList), e)
            == !access_allows(with_mode(p, AccessControlMode::BlackList), e),
{
}

/// Adding an id to an access list puts it there; removing it takes it out and keeps the
/// others.
pub proof fn law_access_list_add_remove(s: Set<i64>, id: i64, other: i64)
    requires
        other != id,
    ensures
        list_after(s, SetAccessControlList::Add(id)).contains(id),
        !list_after(s, SetAccessControlList::Remove(id)).contains(id),
        list_after(s, SetAccessControlList::Remove(id)).contains(other) == s.contains(other),
        list_after(list_after(s, SetAccessControlList::Add(id)), SetAccessControlList::Remove(id)).contains(other)
            == s.contains(other),
{
}

proof fn lemma_push_contains_iff(s: Seq<i64>, y: i64, x: i64)
    ensures
        s.push(y).contains(x) <==> (s.contains(x) || x == y),
{
    if s.push(y).contains(x) && x != y {
        let k = choose|k: int| 0 <= k < s.push(y).len() && s.push(y)[k] == x;
        assert(s[k] == x);
    }
    if s.contains(x) {
        let k = choose|k: int| 0 <= k < s.len() && s[k] == x;
        assert(s.push(y)[k] == x);
    }
    if x == y {
        assert(s.push(y)[s.len() as int] == x);
    }
}

proof fn lemma_without_any(d: Seq<i64>, ids: Seq<i64>)
    ensures
        forall|x: i64| #[trigger] without_any(d, ids).contains(x) <==> d.contains(x) && !ids.contains(x),
    decreases d.len(),
{
    if d.len() > 0 {
        let dl = d.drop_last();
        lemma_without_any(dl, ids);
        let w = without_any(dl, ids);
        assert(d =~= dl.push(d.last()));
        assert forall|x: i64| #[trigger] without_any(d, ids).contains(x) <==> d.contains(x) && !ids.contains(x) by {
            lemma_push_contains_iff(dl, d.last(), x);
            lemma_push_contains_iff(w, d.last(), x);
            assert(w.contains(x) <==> dl.contains(x) && !ids.contains(x));
        }
    }
}

/// Adding a deputy administrator and then removing that id leaves no deputy of that id, and
/// every other id a deputy exactly when it was one before.
pub proof fn law_deputy_add_then_remove(d: Seq<i64>, id: i64, other: i64)
    requires
        other != id,
    ensures
        !admins_after(admins_after(d, SetAdmin::Add(id)), SetAdmin::Remove(id)).contains(id),
        admins_after(admins_after(d, SetAdmin::Add(id)), SetAdmin::Remove(id)).contains(other) == d.contains(other),
{
    lemma_without_any(d.push(id), seq![id]);
    assert(seq![id].contains(id)) by {
        assert(seq![id][0] == id);
    }
    assert(!seq![id].contains(other));
    if d.contains(other) {
        let k = choose|k: int| 0 <= k < d.len() && d[k] == other;
        assert(d.push(id)[k] == other);
    }
    if d.push(id).contains(other) {
        let k = choose|k: int| 0 <= k < d.push(id).len() && d.push(id)[k] == other;
        assert(d[k] == other);
    }
}

proof fn lemma_same_names_index(ps: Seq<PluginV>, qs: Seq<PluginV>, name: Seq<char>)
    requires
        names_distinct(ps),
        qs.len() == ps.len(),
        forall|j: int| 0 <= j < ps.len() ==> #[trigger] qs[j].name == ps[j].name,
        has_plugin(ps, name),
    ensures
        names_distinct(qs),
        has_plugin(qs, name),
        plugin_index(qs, name) == plugin_index(ps, name),
{
    let i = plugin_index(ps, name);
    assert(qs[i].name == name);
    let j = plugin_index(qs, name);
    assert(ps[j].name == name);
}

/// Switching a mounted plugin on or off leaves it mounted at its place, reads back as the
/// value set, and changes no other plugin.
pub proof fn law_switch_reads_back(ps: Seq<PluginV>, name: Seq<char>, b: bool)
    requires
        names_distinct(ps),
        has_plugin(ps, name),
    ensures
        ({
            let i = plugin_index(ps, name);
            let qs = ps.update(i, with_enabled(ps[i], b));
            &&& has_plugin(qs, name)
            &&& plugin_index(qs, name) == i
            &&& qs[plugin_index(qs, name)].enabled == b
            &&& forall|j: int| 0 <= j < ps.len() && j != i ==> qs[j] == ps[j]
        }),
{
    let i = plugin_index(ps, name);
    let qs = ps.update(i, with_enabled(ps[i], b));
    lemma_same_names_index(ps, qs, name);
}

/// After mounting a plugin, a plugin of that name is mounted, in its fresh state.
pub proof fn law_mount_then_present(ps: Seq<PluginV>, name: Seq<char>, version: Seq<char>)
    requires
        names_distinct(ps),
    ensures
        ({
            let qs = if has_plugin(ps, name) {
                ps.update(plugin_index(ps, name), fresh_plugin(name, version))
            } else {
                ps.push(fresh_plugin(name, version))
            };
            &&& names_distinct(qs)
            &&& has_plugin(qs, name)
            &&& qs[plugin_index(qs, name)] == fresh_plugin(name, version)
        }),
{
    if has_plugin(ps, name) {
        let qs = ps.update(plugin_index(ps, name), fresh_plugin(name, version));
        lemma_same_names_index(ps, qs, name);
    } else {
        let qs = ps.push(fresh_plugin(name, version));
        assert(qs[ps.len() as int].name == name);
        assert(names_distinct(qs)) by {
            assert forall|a: int, b: int| 0 <= a < qs.len() && 0 <= b < qs.len() && a != b implies qs[a].name != qs[b].name by {
                if a < ps.len() && b < ps.len() {
                    assert(qs[a] == ps[a] && qs[b] == ps[b]);
                } else if a < ps.len() {
                    assert(qs[a] == ps[a]);
                } else if b < ps.len() {
                    assert(qs[b] == ps[b]);
                }
            }
        }
        let j = plugin_index(qs, name);
        assert(j == ps.len()) by {
            if j < ps.len() {
                assert(ps[j].name == name);
            }
        }
    }
}


/// Switching a mounted plugin's access control on or off leaves it mounted at its place, reads
/// back as the value set, changes nothing else of it and no other plugin; switched off, the
/// plugin receives every message event again.
pub proof fn law_access_control_reads_back(ps: Seq<PluginV>, name: Seq<char>, b: bool, e: MsgEventV)
    requires
        names_distinct(ps),
        has_plugin(ps, name),
    ensures
        ({
            let i = plugin_index(ps, name);
            let qs = ps.update(i, with_access_control(ps[i], b));
            &&& has_plugin(qs, name)
            &&& plugin_index(qs, name) == i
            &&& qs[i].access_control == b
            &&& qs[i].name == ps[i].name && qs[i].version == ps[i].version
            &&& qs[i].enabled == ps[i].enabled && qs[i].enable_on_startup == ps[i].enable_on_startup
            &&& qs[i].list_mode == ps[i].list_mode
            &&& qs[i].friends == ps[i].friends && qs[i].groups == ps[i].groups
            &&& (!b ==> access_allows(qs[i], e))
            &&& forall|j: int| 0 <= j < ps.len() && j != i ==> qs[j] == ps[j]
        }),
{
    let i = plugin_index(ps, name);
    let qs = ps.update(i, with_access_control(ps[i], b));
    lemma_same_names_index(ps, qs, name);
}

} // verus!
