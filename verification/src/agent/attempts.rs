//! Authentication attempts, counted per source address.

use crate::clock;
use crate::net::IpAddress;
use std::collections::HashMap;
use vstd::prelude::*;

verus! {

broadcast use vstd::std_specs::hash::group_hash_axioms;

/// Length of the window over which attempts are counted, in nanoseconds.
pub const ATTEMPT_WINDOW: u128 = 60_000_000_000;

/// The attempts of one source since its window began.
#[derive(Debug, Clone, Copy, PartialEq, Eq, Structural)]
pub struct AttemptWindow {
    /// When the window began.
    pub start: u128,
    /// Attempts since then.
    pub count: u32,
}

/// The window of a source once it has made one more attempt at `now`: a new one
/// where there was none or where the old one is over.
pub open spec fn next_window(before: Option<AttemptWindow>, now: u128) -> AttemptWindow {
    match before {
        Some(w) if clock::elapsed(w.start, now) < ATTEMPT_WINDOW => AttemptWindow {
            start: w.start,
            count: if w.count == u32::MAX {
                u32::MAX
            } else {
                (w.count + 1) as u32
            },
        },
        _ => AttemptWindow { start: now, count: 1 },
    }
}

/// The window of every source that made an attempt.
#[derive(Debug)]
pub struct AttemptTable {
    v4: HashMap<u32, AttemptWindow>,
    v6: HashMap<u128, AttemptWindow>,
}

impl View for AttemptTable {
    type V = Map<IpAddress, AttemptWindow>;

    closed spec fn view(&self) -> Map<IpAddress, AttemptWindow> {
        Map::new(
            |ip: IpAddress|
                match ip {
                    IpAddress::V4(n) => self.v4@.contains_key(n),
                    IpAddress::V6(n) => self.v6@.contains_key(n),
                },
            |ip: IpAddress|
                match ip {
                    IpAddress::V4(n) => self.v4@[n],
                    IpAddress::V6(n) => self.v6@[n],
                },
        )
    }
}

/// What a table holds for a source.
pub open spec fn window_of(t: Map<IpAddress, AttemptWindow>, source: IpAddress) -> Option<
    AttemptWindow,
> {
    if t.contains_key(source) {
        Some(t[source])
    } else {
        None
    }
}

impl AttemptTable {
    /// A table without attempts.
    pub fn new() -> (t: AttemptTable)
        ensures
            t@ == Map::<IpAddress, AttemptWindow>::empty(),
    {
        let t = AttemptTable { v4: HashMap::new(), v6: HashMap::new() };
        assert(t@ =~= Map::<IpAddress, AttemptWindow>::empty());
        t
    }

    /// The window of a source.
    pub fn get(&self, source: IpAddress) -> (w: Option<AttemptWindow>)
        ensures
            w == window_of(self@, source),
    {
        match source {
            IpAddress::V4(n) => match self.v4.get(&n) {
                Some(w) => Some(*w),
                None => None,
            },
            IpAddress::V6(n) => match self.v6.get(&n) {
                Some(w) => Some(*w),
                None => None,
            },
        }
    }

    /// Sets the window of a source.
    pub fn set(&mut self, source: IpAddress, w: AttemptWindow)
        ensures
            final(self)@ == old(self)@.insert(source, w),
    {
        match source {
            IpAddress::V4(n) => {
                self.v4.insert(n, w);
            },
            IpAddress::V6(n) => {
                self.v6.insert(n, w);
            },
        }
        assert(self@ =~= old(self)@.insert(source, w));
    }

    /// Forgets the attempts of a source.
    pub fn forget(&mut self, source: IpAddress)
        ensures
            final(self)@ == old(self)@.remove(source),
    {
        match source {
            IpAddress::V4(n) => {
                self.v4.remove(&n);
            },
            IpAddress::V6(n) => {
                self.v6.remove(&n);
            },
        }
        assert(self@ =~= old(self)@.remove(source));
    }

    /// Counts an attempt of `source` at `now`, and tells how many it has made
    /// within its window.
    pub fn count(&mut self, source: IpAddress, now: u128) -> (n: u32)
        ensures
            final(self)@ == old(self)@.insert(
                source,
                next_window(window_of(old(self)@, source), now),
            ),
            n == next_window(window_of(old(self)@, source), now).count,
    {
        let next = match self.get(source) {
            Some(w) => {
                if clock::time_between(w.start, now) >= ATTEMPT_WINDOW {
                    AttemptWindow { start: now, count: 1 }
                } else {
                    let count: u32 = if w.count == u32::MAX {
                        u32::MAX
                    } else {
                        w.count + 1
                    };
                    AttemptWindow { start: w.start, count }
                }
            },
            None => AttemptWindow { start: now, count: 1 },
        };
        self.set(source, next);
        next.count
    }
}

/// The window of a source goes on for sixty seconds from its first attempt, and counts each
/// attempt once; then a new one begins with one attempt. The count never goes round.
pub proof fn law_a_window_lasts_a_minute(before: Option<AttemptWindow>, now: u128)
    ensures
        ({
            let after = next_window(before, now);
            &&& before is None ==> after == (AttemptWindow { start: now, count: 1 })
            &&& before matches Some(w) ==> {
                &&& now - w.start >= 60_000_000_000 ==> after == (AttemptWindow {
                    start: now,
                    count: 1,
                })
                &&& now - w.start < 60_000_000_000 ==> after.start == w.start
                &&& now - w.start < 60_000_000_000 && w.count < u32::MAX ==> after.count == w.count
                    + 1
                &&& now - w.start < 60_000_000_000 && w.count == u32::MAX ==> after.count
                    == u32::MAX
            }
        }),
{
}

} // verus!
