//! When the periodic hooks fire. Widgets subscribe with a period; every
//! group of subscribers with the same period fires once more than its period
//! has passed since it last fired. Times are nanoseconds on a monotonic
//! clock.
use vstd::prelude::*;

verus! {

/// The subscribers that share one period, and when they last fired.
pub struct HookGroup {
    pub period: u64,
    pub last_fired: u64,
    pub subscribers: Vec<usize>,
}

/// One group as the contracts see it: period, last firing, subscribers.
pub type GroupView = (u64, u64, Seq<usize>);

/// The groups of periodic hooks, one per period, in the order their periods
/// were first subscribed.
pub struct HookSchedule {
    groups: Vec<HookGroup>,
}

/// The groups as the contracts see them.
pub open spec fn group_views(groups: Seq<HookGroup>) -> Seq<GroupView> {
    groups.map_values(|g: HookGroup| (g.period, g.last_fired, g.subscribers@))
}

impl View for HookSchedule {
    type V = Seq<GroupView>;

    closed spec fn view(&self) -> Seq<GroupView> {
        group_views(self.groups@)
    }
}

/// No two groups share a period.
pub open spec fn distinct_periods(v: Seq<GroupView>) -> bool {
    forall|i: int, j: int| 0 <= i < v.len() && 0 <= j < v.len() && i != j ==> v[i].0 != v[j].0
}

/// Some group has this period.
pub open spec fn has_period(v: Seq<GroupView>, period: u64) -> bool {
    exists|i: int| 0 <= i < v.len() && v[i].0 == period
}

/// No group fired after `now`.
pub open spec fn fired_by(v: Seq<GroupView>, now: u64) -> bool {
    forall|i: int| 0 <= i < v.len() ==> v[i].1 <= now
}

/// The time since the group last fired, or nothing if `now` is earlier.
pub open spec fn elapsed(g: GroupView, now: u64) -> int {
    if now >= g.1 {
        now - g.1
    } else {
        0
    }
}

/// More than the group's period has passed since it last fired.
pub open spec fn is_due(g: GroupView, now: u64) -> bool {
    elapsed(g, now) > g.0
}

/// The subscribers of the groups that are due at `now`, group by group.
pub open spec fn due_subscribers(v: Seq<GroupView>, now: u64) -> Seq<usize>
    decreases v.len(),
{
    if v.len() == 0 {
        Seq::empty()
    } else {
        due_subscribers(v.drop_last(), now) + if is_due(v.last(), now) {
            v.last().2
        } else {
            Seq::empty()
        }
    }
}

/// How long until a group is due: its period less the time since it last
/// fired, or nothing if that time is already longer.
pub open spec fn remaining(g: GroupView, now: u64) -> int {
    if g.0 > elapsed(g, now) {
        g.0 - elapsed(g, now)
    } else {
        0
    }
}

/// How long the scheduler sleeps when there are no groups: one second.
pub open spec fn idle_sleep() -> u64 {
    1_000_000_000
}

impl HookSchedule {
    /// No two groups share a period.
    #[verifier::type_invariant]
    spec fn periods_distinct(self) -> bool {
        distinct_periods(group_views(self.groups@))
    }

    pub fn new() -> (r: Self)
        ensures
            r@ == Seq::<GroupView>::empty(),
    {
        let r = Self { groups: Vec::new() };
        assert(r@ =~= Seq::<GroupView>::empty());
        r
    }

    /// Adds `subscriber` to the group of `period`, which is created (as if
    /// it had just fired) when no group has that period yet.
    pub fn subscribe(&mut self, period: u64, subscriber: usize, now: u64)
        ensures
            distinct_periods(final(self)@),
            has_period(old(self)@, period) ==> exists|i: int|
                0 <= i < old(self)@.len() && old(self)@[i].0 == period && final(self)@
                    == old(self)@.update(i, (period, old(self)@[i].1, old(self)@[i].2.push(subscriber))),
            !has_period(old(self)@, period) ==> final(self)@ == old(self)@.push(
                (period, now, seq![subscriber]),
            ),
    {
        proof {
            use_type_invariant(&*self);
        }
        let ghost v = self@;
        let mut groups: Vec<HookGroup> = Vec::new();
        std::mem::swap(&mut groups, &mut self.groups);
        let mut i: usize = 0;
        while i < groups.len()
            invariant
                group_views(groups@) == v,
                v == old(self)@,
                distinct_periods(v),
                i <= v.len(),
                v.len() == groups@.len(),
                forall|j: int| 0 <= j < i ==> v[j].0 != period,
            decreases groups@.len() - i,
        {
            assert(v[i as int].0 == groups@[i as int].period);
            if groups[i].period == period {
                let mut group = groups.remove(i);
                group.subscribers.push(subscriber);
                groups.insert(i, group);
                let ghost w = group_views(groups@);
                proof {
                    assert(w =~= v.update(i as int, (period, v[i as int].1, v[i as int].2.push(subscriber))));
                    assert(distinct_periods(w)) by {
                        assert forall|a: int, b: int|
                            0 <= a < w.len() && 0 <= b < w.len() && a != b implies w[a].0
                            != w[b].0 by {
                            assert(w[a].0 == v[a].0 && w[b].0 == v[b].0);
                        }
                    }
                    assert(has_period(v, period));
                }
                self.groups = groups;
                proof {
                    assert(0 <= i < v.len() && v[i as int].0 == period && self@ == v.update(
                        i as int,
                        (period, v[i as int].1, v[i as int].2.push(subscriber)),
                    ));
                }
                return;
            }
            i = i + 1;
        }
        let mut subscribers = Vec::new();
        subscribers.push(subscriber);
        groups.push(HookGroup { period, last_fired: now, subscribers });
        proof {
            assert(group_views(groups@) =~= v.push((period, now, seq![subscriber])));
        }
        self.groups = groups;
    }

    /// Fires every group that is due at `now`: it is marked as fired now and
    /// its subscribers are returned, group by group. Afterwards no group is
    /// due at `now`.
    pub fn fire_due(&mut self, now: u64) -> (fired: Vec<usize>)
        ensures
            final(self)@.len() == old(self)@.len(),
            forall|i: int|
                0 <= i < old(self)@.len() ==> final(self)@[i] == if is_due(old(self)@[i], now) {
                    (old(self)@[i].0, now, old(self)@[i].2)
                } else {
                    old(self)@[i]
                },
            fired@ == due_subscribers(old(self)@, now),
            fired_by(old(self)@, now) ==> fired_by(final(self)@, now),
            forall|i: int| 0 <= i < final(self)@.len() ==> !is_due(final(self)@[i], now),
    {
        proof {
            use_type_invariant(&*self);
        }
        let ghost v = self@;
        let mut groups: Vec<HookGroup> = Vec::new();
        std::mem::swap(&mut groups, &mut self.groups);
        let mut fired: Vec<usize> = Vec::new();
        let mut i: usize = 0;
        while i < groups.len()
            invariant
                v.len() == groups@.len(),
                group_views(groups@).len() == v.len(),
                distinct_periods(v),
                i <= v.len(),
                forall|j: int|
                    0 <= j < i ==> group_views(groups@)[j] == if is_due(v[j], now) {
                        (v[j].0, now, v[j].2)
                    } else {
                        v[j]
                    },
                forall|j: int| i <= j < v.len() ==> group_views(groups@)[j] == v[j],
                fired@ == due_subscribers(v.take(i as int), now),
            decreases groups@.len() - i,
        {
            let ghost before = group_views(groups@);
            assert(before[i as int] == v[i as int]);
            let due = now.saturating_sub(groups[i].last_fired) > groups[i].period;
            proof {
                assert(v.take(i + 1).drop_last() =~= v.take(i as int));
            }
            if due {
                let mut group = groups.remove(i);
                group.last_fired = now;
                let mut k: usize = 0;
                let ghost start = fired@;
                while k < group.subscribers.len()
                    invariant
                        k <= group.subscribers@.len(),
                        fired@ == start + group.subscribers@.take(k as int),
                    decreases group.subscribers@.len() - k,
                {
                    fired.push(group.subscribers[k]);
                    proof {
                        assert(group.subscribers@.take(k + 1) =~= group.subscribers@.take(
                            k as int,
                        ).push(group.subscribers@[k as int]));
                    }
                    k = k + 1;
                }
                proof {
                    assert(group.subscribers@.take(k as int) =~= group.subscribers@);
                }
                groups.insert(i, group);
                proof {
                    assert(group_views(groups@) =~= before.update(
                        i as int,
                        (v[i as int].0, now, v[i as int].2),
                    ));
                }
            } else {
                proof {
                    assert(due_subscribers(v.take(i + 1), now) =~= due_subscribers(
                        v.take(i as int),
                        now,
                    ));
                }
            }
            i = i + 1;
        }
        proof {
            assert(v.take(v.len() as int) =~= v);
            let w = group_views(groups@);
            assert forall|a: int, b: int|
                0 <= a < w.len() && 0 <= b < w.len() && a != b implies w[a].0 != w[b].0 by {
                assert(w[a].0 == v[a].0 && w[b].0 == v[b].0);
            }
        }
        self.groups = groups;
        fired
    }

    /// How long to sleep before a group can be due: the least of the groups'
    /// remaining times, or one second when there is no group.
    pub fn next_wake(&self, now: u64) -> (r: u64)
        ensures
            self@.len() == 0 ==> r == idle_sleep(),
            self@.len() > 0 ==> (exists|i: int| 0 <= i < self@.len() && r == remaining(self@[i], now))
                && forall|i: int| 0 <= i < self@.len() ==> r <= remaining(self@[i], now),
    {
        let ghost v = self@;
        if self.groups.len() == 0 {
            return 1_000_000_000;
        }
        assert(v[0] == (self.groups@[0].period, self.groups@[0].last_fired, self.groups@[0].subscribers@));
        let mut best: u64 = self.groups[0].period.saturating_sub(
            now.saturating_sub(self.groups[0].last_fired),
        );
        assert(best == remaining(v[0], now));
        let mut i: usize = 1;
        while i < self.groups.len()
            invariant
                v == self@,
                v.len() == self.groups@.len(),
                1 <= i <= v.len(),
                exists|j: int| 0 <= j < i && best == remaining(v[j], now),
                forall|j: int| 0 <= j < i ==> best <= remaining(v[j], now),
            decreases self.groups@.len() - i,
        {
            assert(v[i as int] == (self.groups@[i as int].period, self.groups@[i as int].last_fired, self.groups@[i as int].subscribers@));
            let left = self.groups[i].period.saturating_sub(
                now.saturating_sub(self.groups[i].last_fired),
            );
            assert(left == remaining(v[i as int], now));
            if left < best {
                best = left;
            }
            i = i + 1;
        }
        best
    }
}

/// No group becomes due while the scheduler sleeps for the time that
/// `next_wake` gave: a group due at any moment of the sleep was already due
/// when the sleep began.
pub proof fn lemma_sleep_misses_nothing(v: Seq<GroupView>, now: u64, r: u64, i: int, t: u64)
    requires
        fired_by(v, now),
        forall|j: int| 0 <= j < v.len() ==> r <= remaining(v[j], now),
        0 <= i < v.len(),
        now <= t <= now + r,
    ensures
        is_due(v[i], t) ==> is_due(v[i], now),
{
    assert(r <= remaining(v[i], now));
}

/// The scheduler never oversleeps: one nanosecond after the time that
/// `next_wake` gave, some group is due.
pub proof fn lemma_wake_finds_due(v: Seq<GroupView>, now: u64, r: u64)
    requires
        fired_by(v, now),
        exists|j: int| 0 <= j < v.len() && r == remaining(v[j], now),
        now + r + 1 <= u64::MAX,
    ensures
        exists|j: int| 0 <= j < v.len() && is_due(v[j], (now + r + 1) as u64),
{
    let j = choose|j: int| 0 <= j < v.len() && r == remaining(v[j], now);
    assert(v[j].1 <= now);
    assert(is_due(v[j], (now + r + 1) as u64));
}

/// A group that fired at `now` is not due again until more than its period
/// has passed since then.
pub proof fn lemma_fired_group_waits(g: GroupView, now: u64, later: u64)
    requires
        g.1 == now,
        later <= now + g.0,
    ensures
        !is_due(g, later),
{
}

} // verus!
