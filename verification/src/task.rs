//! The tasks that each plugin started, by plugin name, so that they stop with the plugin, and
//! the schedules of its timed tasks.
use vstd::prelude::*;
use crate::registry::{pairs_map, NamedMap};

verus! {

/// The handles of the tasks started under `name`, in the order they were recorded.
pub open spec fn handles_in<H>(m: Map<Seq<char>, Vec<H>>, name: Seq<char>) -> Seq<H> {
    if m.dom().contains(name) {
        m[name]@
    } else {
        Seq::empty()
    }
}

/// For each plugin, the handles of the tasks it started.
pub struct TaskBook<H> {
    by_plugin: NamedMap<Vec<H>>,
}

impl<H> View for TaskBook<H> {
    type V = Map<Seq<char>, Vec<H>>;

    closed spec fn view(&self) -> Map<Seq<char>, Vec<H>> {
        self.by_plugin@
    }
}

impl<H> TaskBook<H> {
    /// Each plugin name is held once.
    pub closed spec fn wf(&self) -> bool {
        self.by_plugin.wf()
    }

    /// The handles of the tasks started under `name`.
    pub open spec fn handles_of(&self, name: Seq<char>) -> Seq<H> {
        handles_in(self@, name)
    }

    /// A book with no task.
    pub fn new() -> (r: TaskBook<H>)
        ensures
            r.wf(),
            forall|n: Seq<char>| #[trigger] r.handles_of(n) == Seq::<H>::empty(),
    {
        TaskBook { by_plugin: NamedMap::new() }
    }

    /// Records a task started under `name`, after the ones recorded before.
    pub fn record(&mut self, name: &str, h: H)
        requires
            old(self).wf(),
        ensures
            final(self).wf(),
            final(self).handles_of(name@) == old(self).handles_of(name@).push(h),
            forall|n: Seq<char>| n != name@ ==> #[trigger] final(self).handles_of(n) == old(self).handles_of(n),
    {
        let mut hs = match self.by_plugin.remove(name) {
            Some(v) => v,
            None => Vec::new(),
        };
        hs.push(h);
        self.by_plugin.insert(name.to_owned(), hs);
    }

    /// The handles of the tasks started under `name`; `None` when none was ever recorded.
    pub fn handles(&self, name: &str) -> (r: Option<&Vec<H>>)
        requires
            self.wf(),
        ensures
            match r {
                Some(v) => v@ == self.handles_of(name@),
                None => self.handles_of(name@) == Seq::<H>::empty(),
            },
    {
        self.by_plugin.get(name)
    }

    /// Takes out every plugin's handles, leaving the book empty.
    pub fn drain(&mut self) -> (r: Vec<(String, Vec<H>)>)
        requires
            old(self).wf(),
        ensures
            final(self).wf(),
            forall|n: Seq<char>| #[trigger] final(self).handles_of(n) == Seq::<H>::empty(),
            forall|n: Seq<char>| #[trigger] handles_in(pairs_map(r@), n) == old(self).handles_of(n),
    {
        self.by_plugin.drain()
    }
}

/// A cron schedule, as croner parses it.
#[verifier::external_type_specification]
#[verifier::external_body]
pub struct ExCron(croner::Cron);

/// Why croner refused a cron pattern.
#[verifier::external_type_specification]
#[verifier::external_body]
pub struct ExCronError(croner::errors::CronError);

/// Whether croner accepts a cron pattern, with the seconds field optional.
pub uninterp spec fn cron_accepts(pattern: Seq<char>) -> bool;

/// Calls `croner::Cron::new(pattern).with_seconds_optional().parse()`. Its contract names the
/// verdict (`cron_accepts`), which depends on the pattern alone; the schedule and the error
/// that come back are croner's values, of which nothing is claimed.
#[verifier::external_body]
fn croner_parse(pattern: &str) -> (r: Result<croner::Cron, croner::errors::CronError>)
    ensures
        r is Ok <==> cron_accepts(pattern@),
{
    croner::Cron::new(pattern).with_seconds_optional().parse()
}

/// The schedule of a timed task from its cron pattern (five fields, or six with seconds);
/// croner's error for a pattern it refuses.
pub fn parse_cron(pattern: &str) -> (r: Result<croner::Cron, croner::errors::CronError>)
    ensures
        r is Ok <==> cron_accepts(pattern@),
{
    croner_parse(pattern)
}

} // verus!
