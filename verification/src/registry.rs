//! Maps keyed by text, which hold the requests that await a reply (by echo) and the tasks of
//! each plugin (by name), and where each reply of the server goes.
use vstd::prelude::*;
use crate::api::{ApiReturn, SendApi};
use crate::json::str_eq;

verus! {

/// The map that a list of (key, value) pairs stands for.
pub open spec fn pairs_map<T>(s: Seq<(String, T)>) -> Map<Seq<char>, T>
    decreases s.len(),
{
    if s.len() == 0 {
        Map::empty()
    } else {
        pairs_map(s.drop_last()).insert(s.last().0@, s.last().1)
    }
}

/// No two pairs share a key.
pub open spec fn keys_distinct<T>(s: Seq<(String, T)>) -> bool {
    forall|i: int, j: int| 0 <= i < s.len() && 0 <= j < s.len() && i != j ==> s[i].0@ != s[j].0@
}

pub(crate) proof fn lemma_pairs_map_lookup<T>(s: Seq<(String, T)>)
    requires
        keys_distinct(s),
    ensures
        forall|i: int| 0 <= i < s.len() ==> #[trigger] pairs_map(s).dom().contains(s[i].0@)
            && pairs_map(s)[s[i].0@] == s[i].1,
        forall|k: Seq<char>| #[trigger] pairs_map(s).dom().contains(k) ==> exists|i: int| 0 <= i < s.len() && s[i].0@ == k,
    decreases s.len(),
{
    if s.len() > 0 {
        let d = s.drop_last();
        assert(keys_distinct(d));
        lemma_pairs_map_lookup(d);
        assert forall|k: Seq<char>| #[trigger] pairs_map(s).dom().contains(k) implies exists|i: int| 0 <= i < s.len() && s[i].0@ == k by {
            if k != s.last().0@ {
                assert(pairs_map(d).dom().contains(k));
                let i = choose|i: int| 0 <= i < d.len() && d[i].0@ == k;
                assert(s[i].0@ == k);
            } else {
                assert(s[s.len() - 1].0@ == k);
            }
        }
        assert forall|i: int| 0 <= i < s.len() implies #[trigger] pairs_map(s).dom().contains(s[i].0@)
            && pairs_map(s)[s[i].0@] == s[i].1 by {
            if i < s.len() - 1 {
                assert(d[i] == s[i]);
                assert(pairs_map(d).dom().contains(d[i].0@) && pairs_map(d)[d[i].0@] == d[i].1);
                assert(s[i].0@ != s[s.len() - 1].0@);
            }
        }
    }
}

pub(crate) proof fn lemma_pairs_map_remove<T>(s: Seq<(String, T)>, i: int)
    requires
        keys_distinct(s),
        0 <= i < s.len(),
    ensures
        pairs_map(s.remove(i)) == pairs_map(s).remove(s[i].0@),
        keys_distinct(s.remove(i)),
    decreases s.len(),
{
    let d = s.drop_last();
    assert(keys_distinct(d));
    lemma_pairs_map_lookup(d);
    if i == s.len() - 1 {
        assert(s.remove(i) =~= d);
        if pairs_map(d).dom().contains(s[i].0@) {
            let j = choose|j: int| 0 <= j < d.len() && d[j].0@ == s[i].0@;
            assert(s[j].0@ == s[i].0@);
        }
        assert(pairs_map(s).remove(s[i].0@) =~= pairs_map(d));
    } else {
        lemma_pairs_map_remove(d, i);
        assert(s.remove(i) =~= d.remove(i).push(s.last()));
        assert(s.remove(i).drop_last() =~= d.remove(i));
        assert(s[i].0@ != s.last().0@);
        assert(pairs_map(s.remove(i)) =~= pairs_map(s).remove(s[i].0@));
    }
    assert forall|a: int, b: int| 0 <= a < s.remove(i).len() && 0 <= b < s.remove(i).len() && a != b implies
        s.remove(i)[a].0@ != s.remove(i)[b].0@ by {
        let a2 = if a < i { a } else { a + 1 };
        let b2 = if b < i { b } else { b + 1 };
        assert(s.remove(i)[a] == s[a2]);
        assert(s.remove(i)[b] == s[b2]);
    }
}

/// A map from texts to values, each text held once: for a request registry, what waits for
/// the reply that carries each echo.
pub struct NamedMap<T> {
    pairs: Vec<(String, T)>,
}

impl<T> View for NamedMap<T> {
    type V = Map<Seq<char>, T>;

    closed spec fn view(&self) -> Map<Seq<char>, T> {
        pairs_map(self.pairs@)
    }
}

impl<T> NamedMap<T> {
    /// Each key is held once.
    pub closed spec fn wf(&self) -> bool {
        keys_distinct(self.pairs@)
    }

    /// An empty map.
    pub fn new() -> (r: NamedMap<T>)
        ensures
            r.wf(),
            r@ == Map::<Seq<char>, T>::empty(),
    {
        NamedMap { pairs: Vec::new() }
    }

    /// The position of the pair with this key.
    fn position(&self, key: &str) -> (r: Option<usize>)
        requires
            self.wf(),
        ensures
            match r {
                Some(i) => i < self.pairs@.len() && self.pairs@[i as int].0@ == key@,
                None => !self@.dom().contains(key@),
            },
    {
        proof { lemma_pairs_map_lookup(self.pairs@); }
        let mut i: usize = 0;
        while i < self.pairs.len()
            invariant
                0 <= i <= self.pairs@.len(),
                forall|j: int| 0 <= j < i ==> self.pairs@[j].0@ != key@,
            decreases self.pairs@.len() - i,
        {
            if str_eq(self.pairs[i].0.as_str(), key) {
                return Some(i);
            }
            i = i + 1;
        }
        None
    }

    /// Whether the key is held.
    pub fn contains(&self, key: &str) -> (r: bool)
        requires
            self.wf(),
        ensures
            r == self@.dom().contains(key@),
    {
        proof { lemma_pairs_map_lookup(self.pairs@); }
        match self.position(key) {
            Some(i) => true,
            None => false,
        }
    }

    /// The value under this key.
    pub fn get(&self, key: &str) -> (r: Option<&T>)
        requires
            self.wf(),
        ensures
            match r {
                Some(t) => self@.dom().contains(key@) && *t == self@[key@],
                None => !self@.dom().contains(key@),
            },
    {
        proof { lemma_pairs_map_lookup(self.pairs@); }
        match self.position(key) {
            Some(i) => {
                assert(pairs_map(self.pairs@).dom().contains(self.pairs@[i as int].0@));
                Some(&self.pairs[i].1)
            },
            None => None,
        }
    }

    /// Takes out every pair, leaving the map empty; the pairs hold each key once.
    pub fn drain(&mut self) -> (r: Vec<(String, T)>)
        requires
            old(self).wf(),
        ensures
            final(self).wf(),
            final(self)@ == Map::<Seq<char>, T>::empty(),
            keys_distinct(r@),
            pairs_map(r@) == old(self)@,
    {
        let mut r: Vec<(String, T)> = Vec::new();
        std::mem::swap(&mut r, &mut self.pairs);
        assert(pairs_map(self.pairs@) == Map::<Seq<char>, T>::empty());
        r
    }

    /// Takes out the value under this key.
    pub fn remove(&mut self, key: &str) -> (r: Option<T>)
        requires
            old(self).wf(),
        ensures
            final(self).wf(),
            final(self)@ == old(self)@.remove(key@),
            match r {
                Some(t) => old(self)@.dom().contains(key@) && t == old(self)@[key@],
                None => !old(self)@.dom().contains(key@),
            },
    {
        proof { lemma_pairs_map_lookup(self.pairs@); }
        match self.position(key) {
            Some(i) => {
                proof {
                    lemma_pairs_map_remove(self.pairs@, i as int);
                    assert(pairs_map(self.pairs@).dom().contains(self.pairs@[i as int].0@));
                }
                let (_, t) = self.pairs.remove(i);
                Some(t)
            },
            None => {
                assert(old(self)@.remove(key@) =~= old(self)@);
                None
            },
        }
    }

    /// Puts `t` under this key, in place of the value held there before.
    pub fn insert(&mut self, key: String, t: T)
        requires
            old(self).wf(),
        ensures
            final(self).wf(),
            final(self)@ == old(self)@.insert(key@, t),
    {
        let _ = self.remove(key.as_str());
        let ghost mid = self.pairs@;
        proof { lemma_pairs_map_lookup(mid); }
        let ghost e = key@;
        self.pairs.push((key, t));
        proof {
            assert(self.pairs@.drop_last() =~= mid);
            assert forall|a: int, b: int| 0 <= a < self.pairs@.len() && 0 <= b < self.pairs@.len() && a != b implies
                self.pairs@[a].0@ != self.pairs@[b].0@ by {
                if a == mid.len() && b < mid.len() {
                    assert(self.pairs@[b] == mid[b]);
                    assert(pairs_map(mid).dom().contains(mid[b].0@));
                } else if b == mid.len() && a < mid.len() {
                    assert(self.pairs@[a] == mid[a]);
                    assert(pairs_map(mid).dom().contains(mid[a].0@));
                }
            }
            assert(old(self)@.remove(e).insert(e, t) =~= old(self)@.insert(e, t));
        }
    }
}

/// Whether a reply's status, in lower case, is `ok` (the Kelvin sign `K` lower-cases to `k`).
pub open spec fn status_is_ok(s: Seq<char>) -> bool {
    &&& s.len() == 2
    &&& (s[0] == 'o' || s[0] == 'O')
    &&& (s[1] == 'k' || s[1] == 'K' || s[1] == '\u{212A}')
}

/// Whether a reply's status, in lower case, is `ok`.
pub fn status_ok(status: &str) -> (r: bool)
    ensures
        r == status_is_ok(status@),
{
    let cs = crate::text::str_chars(status);
    if cs.len() != 2 {
        return false;
    }
    let a = cs[0];
    let b = cs[1];
    (a == 'o' || a == 'O') && (b == 'k' || b == 'K' || b == '\u{212A}')
}

/// Where a reply of the server goes.
pub enum ApiDelivery<T> {
    /// The reply carries the echo `None`: nobody waits for it.
    Ignored(ApiReturn),
    /// No request awaits a reply with its echo.
    Unmatched(ApiReturn),
    /// To what waited for it: as a success when its status is `ok`, as a failure otherwise.
    Deliver(T, Result<ApiReturn, ApiReturn>),
}

/// Records what waits for the reply to a request; a request with the echo `None` awaits none.
pub fn register_request<T>(reg: &mut NamedMap<T>, api: &SendApi, waiter: Option<T>)
    requires
        old(reg).wf(),
        api.echo@ != "None"@ ==> waiter is Some,
    ensures
        final(reg).wf(),
        api.echo@ == "None"@ ==> final(reg)@ == old(reg)@,
        api.echo@ != "None"@ ==> final(reg)@ == old(reg)@.insert(api.echo@, waiter->0),
{
    if !str_eq(api.echo.as_str(), "None") {
        match waiter {
            Some(t) => reg.insert(api.echo.clone(), t),
            None => {},
        }
    }
}

/// Where a reply goes: nowhere for the echo `None`; else to what waited under its echo, which
/// stops waiting.
pub fn route_reply<T>(reg: &mut NamedMap<T>, ret: ApiReturn) -> (r: ApiDelivery<T>)
    requires
        old(reg).wf(),
    ensures
        final(reg).wf(),
        ret.echo@ == "None"@ ==> final(reg)@ == old(reg)@ && r == ApiDelivery::<T>::Ignored(ret),
        ret.echo@ != "None"@ ==> final(reg)@ == old(reg)@.remove(ret.echo@),
        ret.echo@ != "None"@ && !old(reg)@.dom().contains(ret.echo@) ==> r == ApiDelivery::<T>::Unmatched(ret),
        ret.echo@ != "None"@ && old(reg)@.dom().contains(ret.echo@) ==> r == ApiDelivery::Deliver(
            old(reg)@[ret.echo@],
            if status_is_ok(ret.status@) { Ok(ret) } else { Err(ret) },
        ),
{
    if str_eq(ret.echo.as_str(), "None") {
        return ApiDelivery::Ignored(ret);
    }
    match reg.remove(ret.echo.as_str()) {
        None => ApiDelivery::Unmatched(ret),
        Some(t) => {
            if status_ok(ret.status.as_str()) {
                ApiDelivery::Deliver(t, Ok(ret))
            } else {
                ApiDelivery::Deliver(t, Err(ret))
            }
        },
    }
}

/// A reply reaches what was registered under its echo, and then nothing waits under that
/// echo any more; what waits under other echoes stays.
pub proof fn law_reply_reaches_its_request<T>(pending: Map<Seq<char>, T>, echo: Seq<char>, waiter: T, other: Seq<char>)
    requires
        other != echo,
    ensures
        pending.insert(echo, waiter).dom().contains(echo),
        pending.insert(echo, waiter)[echo] == waiter,
        !pending.insert(echo, waiter).remove(echo).dom().contains(echo),
        pending.insert(echo, waiter).remove(echo).dom().contains(other) == pending.dom().contains(other),
        pending.dom().contains(other) ==> pending.insert(echo, waiter).remove(echo)[other] == pending[other],
{
}

} // verus!
