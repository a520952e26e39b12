//! Pacing of requests: no two requests to one host closer together than a
//! fixed interval. The library decides how long a request has to wait; the
//! caller does the waiting. Times are in milliseconds.

use vstd::prelude::*;
use crate::text::str_eq;

verus! {

/// The least time between two requests to one host.
pub const MIN_INTERVAL: u64 = 2000;

/// The least time between two requests to one host.
pub fn duration() -> (r: u64)
    ensures
        r == MIN_INTERVAL,
{
    MIN_INTERVAL
}

/// The time at which a request asked for at `now` may be issued to a host
/// whose last request was granted for `last`, capped at the greatest time
/// that can be written.
pub open spec fn grant_after(last: int, now: int, interval: int) -> int {
    let due = if last + interval > now {
        last + interval
    } else {
        now
    };
    if due > u64::MAX {
        u64::MAX as int
    } else {
        due
    }
}

/// The time for which the last request to a host was granted.
#[derive(Clone, Copy, Debug, PartialEq, Eq, Structural)]
pub struct Delay(pub u64);

impl Delay {
    /// A host's first request, granted for `now`.
    pub fn new(now: u64) -> (r: Delay)
        ensures
            r.0 == now,
    {
        Delay(now)
    }

    /// Grants a request asked for at `now` under the interval `delay`, and
    /// says how long the caller has to wait before issuing it.
    pub fn delay_if(&mut self, now: u64, delay: u64) -> (wait: u64)
        ensures
            final(self).0 == grant_after(old(self).0 as int, now as int, delay as int),
            wait == final(self).0 - now,
    {
        let due = if self.0 > u64::MAX - delay {
            u64::MAX
        } else {
            self.0 + delay
        };
        let grant = if due > now {
            due
        } else {
            now
        };
        self.0 = grant;
        grant - now
    }
}

/// Whether no two entries have the same host.
pub open spec fn distinct_hosts(entries: Seq<(String, Delay)>) -> bool {
    forall|i: int, j: int|
        0 <= i < j < entries.len() ==> (#[trigger] entries[i]).0@ != (#[trigger] entries[j]).0@
}

/// Whether some entry has the host `host`.
pub open spec fn knows(entries: Seq<(String, Delay)>, host: Seq<char>) -> bool {
    exists|i: int| 0 <= i < entries.len() && (#[trigger] entries[i]).0@ == host
}

/// The last grant of an entry with the host `host`.
pub open spec fn last_of(entries: Seq<(String, Delay)>, host: Seq<char>) -> u64 {
    entries[choose|i: int| 0 <= i < entries.len() && (#[trigger] entries[i]).0@ == host].1.0
}

/// The mapping from hosts to last grants that the entries stand for.
pub open spec fn grants(entries: Seq<(String, Delay)>) -> Map<Seq<char>, u64> {
    Map::new(|h: Seq<char>| knows(entries, h), |h: Seq<char>| last_of(entries, h))
}

/// Among distinct entries a host stands at one place only.
pub proof fn lemma_entry_is_known(entries: Seq<(String, Delay)>, i: int)
    requires
        distinct_hosts(entries),
        0 <= i < entries.len(),
    ensures
        knows(entries, entries[i].0@),
        last_of(entries, entries[i].0@) == entries[i].1.0,
{
    let host = entries[i].0@;
    let j = choose|j: int| 0 <= j < entries.len() && (#[trigger] entries[j]).0@ == host;
    if j < i {
        assert(entries[j].0@ != entries[i].0@);
    } else if i < j {
        assert(entries[i].0@ != entries[j].0@);
    }
}

/// The time for which a request to `host` asked for at `now` is granted: at
/// once for a host not seen before, else an interval after the host's last
/// grant, or at once if that has passed.
pub open spec fn grant_of(state: Map<Seq<char>, u64>, host: Seq<char>, now: int, interval: int)
    -> int {
    if state.dom().contains(host) {
        grant_after(state[host] as int, now, interval)
    } else {
        now
    }
}

/// The hosts that requests were granted for, each with its last grant.
#[derive(Debug)]
pub struct Sites {
    pub entries: Vec<(String, Delay)>,
}

impl View for Sites {
    type V = Map<Seq<char>, u64>;

    open spec fn view(&self) -> Map<Seq<char>, u64> {
        grants(self.entries@)
    }
}

impl Sites {
    /// Whether no host stands twice.
    pub open spec fn wf(&self) -> bool {
        distinct_hosts(self.entries@)
    }

    /// No host seen yet.
    pub fn new() -> (r: Sites)
        ensures
            r.wf(),
            r@ == Map::<Seq<char>, u64>::empty(),
    {
        let r = Sites { entries: Vec::new() };
        assert(r@ =~= Map::<Seq<char>, u64>::empty());
        r
    }

    /// Whether no host stands twice.
    pub fn check(&self) -> (r: bool)
        ensures
            r == self.wf(),
    {
        let n = self.entries.len();
        let mut j: usize = 0;
        while j < n
            invariant
                n == self.entries@.len(),
                j <= n,
                forall|a: int, b: int|
                    0 <= a < b < j ==> (#[trigger] self.entries@[a]).0@ != (
                    #[trigger] self.entries@[b]).0@,
            decreases n - j,
        {
            let mut i: usize = 0;
            while i < j
                invariant
                    n == self.entries@.len(),
                    i <= j < n,
                    forall|a: int|
                        0 <= a < i ==> (#[trigger] self.entries@[a]).0@ != self.entries@[j as int].0@,
                decreases j - i,
            {
                if str_eq(self.entries[i].0.as_str(), self.entries[j].0.as_str()) {
                    return false;
                }
                i += 1;
            }
            j += 1;
        }
        true
    }

    /// Grants a request to `host` asked for at `now`, and says how long the
    /// caller has to wait before issuing it. Only the host's own entry is
    /// read and written.
    pub fn access(&mut self, host: &str, now: u64, interval: u64) -> (wait: u64)
        requires
            old(self).wf(),
        ensures
            final(self).wf(),
            now + wait == grant_of(old(self)@, host@, now as int, interval as int),
            final(self)@ == old(self)@.insert(host@, (now + wait) as u64),
    {
        let n = self.entries.len();
        let mut i: usize = 0;
        while i < n
            invariant
                n == self.entries@.len(),
                i <= n,
                *self == *old(self),
                self.wf(),
                forall|k: int| 0 <= k < i ==> (#[trigger] self.entries@[k]).0@ != host@,
            decreases n - i,
        {
            if str_eq(self.entries[i].0.as_str(), host) {
                let ghost before = self.entries@;
                proof {
                    lemma_entry_is_known(before, i as int);
                }
                let name = self.entries[i].0.clone();
                let mut d = self.entries[i].1;
                let wait = d.delay_if(now, interval);
                self.entries.set(i, (name, d));
                proof {
                    let after = self.entries@;
                    assert(after == before.update(i as int, (name, d)));
                    assert(distinct_hosts(after)) by {
                        assert forall|a: int, b: int| 0 <= a < b < after.len() implies (
                        #[trigger] after[a]).0@ != (#[trigger] after[b]).0@ by {
                            assert(before[a].0@ != before[b].0@);
                        }
                    }
                    assert forall|h: Seq<char>| knows(after, h) == knows(before, h) by {
                        if knows(after, h) {
                            let j = choose|j: int|
                                0 <= j < after.len() && (#[trigger] after[j]).0@ == h;
                            assert(before[j].0@ == h);
                        }
                        if knows(before, h) {
                            let j = choose|j: int|
                                0 <= j < before.len() && (#[trigger] before[j]).0@ == h;
                            assert(after[j].0@ == h);
                        }
                    }
                    assert forall|h: Seq<char>| knows(after, h) implies last_of(after, h) == (if h
                        == host@ {
                        d.0
                    } else {
                        last_of(before, h)
                    }) by {
                        let j = choose|j: int|
                            0 <= j < after.len() && (#[trigger] after[j]).0@ == h;
                        lemma_entry_is_known(after, j);
                        assert(before[j].0@ == h);
                        lemma_entry_is_known(before, j);
                        if h == host@ {
                            lemma_entry_is_known(after, i as int);
                        }
                    }
                    assert(grants(after) =~= grants(before).insert(host@, d.0));
                }
                return wait;
            }
            i += 1;
        }
        let ghost before = self.entries@;
        let name = String::from_str(host);
        self.entries.push((name, Delay::new(now)));
        proof {
            let after = self.entries@;
            assert(!knows(before, host@));
            assert forall|a: int, b: int| 0 <= a < b < after.len() implies (#[trigger] after[a]).0@
                != (#[trigger] after[b]).0@ by {
                if b < n {
                    assert(before[a].0@ != before[b].0@);
                } else {
                    assert(before[a].0@ != host@);
                }
            }
            assert forall|h: Seq<char>| knows(after, h) == (h == host@ || knows(before, h)) by {
                if knows(after, h) {
                    let j = choose|j: int| 0 <= j < after.len() && (#[trigger] after[j]).0@ == h;
                    if j < n {
                        assert(before[j].0@ == h);
                    }
                }
                if h == host@ {
                    assert(after[n as int].0@ == h);
                } else if knows(before, h) {
                    let j = choose|j: int|
                        0 <= j < before.len() && (#[trigger] before[j]).0@ == h;
                    assert(after[j].0@ == h);
                }
            }
            assert forall|h: Seq<char>| knows(after, h) implies last_of(after, h) == (if h
                == host@ {
                now
            } else {
                last_of(before, h)
            }) by {
                let j = choose|j: int| 0 <= j < after.len() && (#[trigger] after[j]).0@ == h;
                lemma_entry_is_known(after, j);
                if j < n {
                    assert(before[j].0@ == h);
                    lemma_entry_is_known(before, j);
                }
            }
            assert(grants(after) =~= grants(before).insert(host@, now));
        }
        0
    }
}

/// The state after a request to `host` asked for at `now` was granted.
pub open spec fn granted(state: Map<Seq<char>, u64>, host: Seq<char>, now: int, interval: int)
    -> Map<Seq<char>, u64> {
    state.insert(host, grant_of(state, host, now, interval) as u64)
}

/// Two requests to one host, asked for one after the other, are granted for
/// times at least the interval apart, as long as the second time can be
/// written.
pub proof fn lemma_same_host_is_spaced(
    state: Map<Seq<char>, u64>,
    host: Seq<char>,
    first: u64,
    second: u64,
    interval: u64,
)
    requires
        grant_of(state, host, first as int, interval as int) + interval <= u64::MAX,
    ensures
        grant_of(
            granted(state, host, first as int, interval as int),
            host,
            second as int,
            interval as int,
        ) - grant_of(state, host, first as int, interval as int) >= interval,
{
}

/// A request to one host leaves every other host as it was: the grant for
/// the other host is the one it would have had without that request, and a
/// host not seen before is granted at once.
pub proof fn lemma_other_host_is_not_delayed(
    state: Map<Seq<char>, u64>,
    host: Seq<char>,
    other: Seq<char>,
    first: u64,
    second: u64,
    interval: u64,
)
    requires
        host != other,
    ensures
        grant_of(
            granted(state, host, first as int, interval as int),
            other,
            second as int,
            interval as int,
        ) == grant_of(state, other, second as int, interval as int),
        !state.dom().contains(other) ==> grant_of(
            granted(state, host, first as int, interval as int),
            other,
            second as int,
            interval as int,
        ) == second,
{
}

} // verus!
