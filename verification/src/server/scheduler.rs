//! The push scheduler's timing wheel: groups are bucketed by update rate,
//! and each tick hands out the groups of every bucket that came due.
//!
//! Times are milliseconds on the scheduler's own clock.  The threads that
//! sleep between ticks and push to the sinks live outside this module.

use std::collections::HashMap;

use vstd::prelude::*;
use vstd::std_specs::hash::*;

verus! {

broadcast use vstd::std_specs::hash::group_hash_axioms;

/// Times handed to the scheduler stay below this bound, far beyond any
/// process lifetime in milliseconds.
pub const CLOCK_LIMIT_MS: u64 = 0x7fff_ffff_ffff_ffff;

/// The groups that share one update rate.
pub struct Bucket {
    rate_ms: u64,
    jobs: Vec<u32>,
    next_tick_ms: u64,
}

/// A bucket as a value: `(rate, group keys in registration order, next due time)`.
pub closed spec fn bucket_view(b: Bucket) -> (u64, Seq<u32>, u64) {
    (b.rate_ms, b.jobs@, b.next_tick_ms)
}

/// Registered groups, each with its job `J`, and the buckets of the wheel.
pub struct Scheduler<J> {
    registry: HashMap<u32, (J, u64)>,
    buckets: Vec<Bucket>,
}

/// The keys other than `key`.
pub open spec fn other_than(key: u32) -> spec_fn(u32) -> bool {
    |k: u32| k != key
}

/// The rate a group is scheduled at: its update rate, at least 1 ms.
pub open spec fn effective_rate(rate_ms: u32) -> u64 {
    if rate_ms == 0 {
        1
    } else {
        rate_ms as u64
    }
}

/// The group keys handed out by a tick at `now` over buckets `bs`: those of
/// each due bucket, bucket by bucket.
pub open spec fn due_keys(bs: Seq<(u64, Seq<u32>, u64)>, now: u64) -> Seq<u32>
    decreases bs.len(),
{
    if bs.len() == 0 {
        Seq::empty()
    } else {
        let prev = due_keys(bs.drop_last(), now);
        if now >= bs.last().2 {
            prev + bs.last().1
        } else {
            prev
        }
    }
}

/// A bucket after a tick at `now`: a due bucket's next time moves on by its rate.
pub open spec fn ticked(b: (u64, Seq<u32>, u64), now: u64) -> (u64, Seq<u32>, u64) {
    if now >= b.2 {
        (b.0, b.1, (b.2 + b.0) as u64)
    } else {
        b
    }
}

impl<J> Scheduler<J> {
    /// Registered groups: key to (job, rate).
    pub closed spec fn registry(&self) -> Map<u32, (J, u64)> {
        self.registry@
    }

    /// The buckets, in creation order.
    pub closed spec fn buckets(&self) -> Seq<(u64, Seq<u32>, u64)> {
        self.buckets@.map_values(|b: Bucket| bucket_view(b))
    }

    /// Bucket rates are distinct and between 1 and `u32::MAX`, due times
    /// stay within the clock bound, and every registered group sits in the
    /// bucket of its rate.
    pub closed spec fn wf(&self) -> bool {
        &&& forall|i: int, j: int|
            0 <= i < j < self.buckets@.len() ==> #[trigger] self.buckets@[i].rate_ms
                != #[trigger] self.buckets@[j].rate_ms
        &&& forall|i: int|
            0 <= i < self.buckets@.len() ==> 1 <= #[trigger] self.buckets@[i].rate_ms <= u32::MAX
                && self.buckets@[i].next_tick_ms <= CLOCK_LIMIT_MS + u32::MAX
        &&& forall|k: u32|
            #[trigger] self.registry@.contains_key(k) ==> exists|i: int|
                0 <= i < self.buckets@.len() && self.buckets@[i].rate_ms == self.registry@[k].1
                    && (#[trigger] self.buckets@[i]).jobs@.contains(k)
    }

    /// An empty scheduler.
    pub fn new() -> (r: Self)
        ensures
            r.wf(),
            r.registry() == Map::<u32, (J, u64)>::empty(),
            r.buckets() == Seq::<(u64, Seq<u32>, u64)>::empty(),
    {
        let r = Scheduler { registry: HashMap::new(), buckets: Vec::new() };
        assert(r.buckets() =~= Seq::<(u64, Seq<u32>, u64)>::empty());
        r
    }

    /// Number of registered groups.
    pub fn registered_count(&self) -> (r: usize)
        ensures
            r == self.registry().len(),
    {
        self.registry.len()
    }

    /// The job registered under `key`, if any.
    pub fn job(&self, key: u32) -> (r: Option<&J>)
        ensures
            r matches Some(j) ==> self.registry().contains_key(key) && *j == self.registry()[key].0,
            r is None ==> !self.registry().contains_key(key),
    {
        match self.registry.get(&key) {
            Some(entry) => Some(&entry.0),
            None => None,
        }
    }

    /// The position of the bucket of `rate`.
    fn find_bucket(&self, rate: u64) -> (r: Option<usize>)
        ensures
            r matches Some(i) ==> i < self.buckets@.len() && self.buckets@[i as int].rate_ms == rate,
            r is None ==> forall|i: int| 0 <= i < self.buckets@.len() ==> #[trigger] self.buckets@[i].rate_ms != rate,
    {
        let mut i: usize = 0;
        while i < self.buckets.len()
            invariant
                i <= self.buckets@.len(),
                forall|j: int| 0 <= j < i ==> #[trigger] self.buckets@[j].rate_ms != rate,
            decreases self.buckets.len() - i,
        {
            if self.buckets[i].rate_ms == rate {
                return Some(i);
            }
            i = i + 1;
        }
        None
    }

    /// Registers group `key` with `job` at update rate `rate_ms` (at least
    /// 1 ms): it joins the bucket of that rate, which is created due at
    /// `now + rate` if it did not exist.
    pub fn register(&mut self, key: u32, job: J, rate_ms: u32, now_ms: u64)
        requires
            old(self).wf(),
            now_ms <= CLOCK_LIMIT_MS,
        ensures
            final(self).wf(),
            final(self).registry() == old(self).registry().insert(key, (job, effective_rate(rate_ms))),
            old(self).buckets().len() <= final(self).buckets().len() <= old(self).buckets().len() + 1,
            forall|i: int|
                0 <= i < old(self).buckets().len() ==> (#[trigger] final(self).buckets()[i]) == (if old(
                    self,
                ).buckets()[i].0 == effective_rate(rate_ms) {
                    (old(self).buckets()[i].0, old(self).buckets()[i].1.push(key), old(self).buckets()[i].2)
                } else {
                    old(self).buckets()[i]
                }),
            final(self).buckets().len() == old(self).buckets().len() + 1 ==> final(self).buckets().last()
                == (effective_rate(rate_ms), seq![key], (now_ms + effective_rate(rate_ms)) as u64),
    {
        let rate: u64 = if rate_ms == 0 {
            1
        } else {
            rate_ms as u64
        };
        self.registry.insert(key, (job, rate));
        let ghost old_buckets = self.buckets@;
        match self.find_bucket(rate) {
            Some(i) => {
                let mut b = self.buckets.remove(i);
                b.jobs.push(key);
                self.buckets.insert(i, b);
                proof {
                    assert forall|j: int, l: int|
                        0 <= j < l < self.buckets@.len() implies #[trigger] self.buckets@[j].rate_ms
                        != #[trigger] self.buckets@[l].rate_ms by {
                        assert(old_buckets[j].rate_ms != old_buckets[l].rate_ms);
                    }
                    assert forall|k: u32| #[trigger] self.registry@.contains_key(k) implies exists|j: int|
                        0 <= j < self.buckets@.len() && self.buckets@[j].rate_ms == self.registry@[k].1
                            && (#[trigger] self.buckets@[j]).jobs@.contains(k) by {
                        if k == key {
                            assert(self.buckets@[i as int].jobs@.last() == key);
                        } else {
                            let j = choose|j: int|
                                0 <= j < old_buckets.len() && old_buckets[j].rate_ms == old(self).registry@[k].1
                                    && (#[trigger] old_buckets[j]).jobs@.contains(k);
                            if j == i {
                                let p = choose|p: int| 0 <= p < old_buckets[j].jobs@.len() && old_buckets[j].jobs@[p] == k;
                                assert(self.buckets@[j].jobs@[p] == k);
                            } else {
                                assert(self.buckets@[j] == old_buckets[j]);
                            }
                        }
                    }
                }
            },
            None => {
                let b = Bucket { rate_ms: rate, jobs: vec![key], next_tick_ms: now_ms + rate };
                self.buckets.push(b);
                proof {
                    let n = old_buckets.len() as int;
                    assert(self.buckets@[n].jobs@[0] == key);
                    assert forall|k: u32| #[trigger] self.registry@.contains_key(k) implies exists|j: int|
                        0 <= j < self.buckets@.len() && self.buckets@[j].rate_ms == self.registry@[k].1
                            && (#[trigger] self.buckets@[j]).jobs@.contains(k) by {
                        if k != key {
                            let j = choose|j: int|
                                0 <= j < old_buckets.len() && old_buckets[j].rate_ms == old(self).registry@[k].1
                                    && (#[trigger] old_buckets[j]).jobs@.contains(k);
                            assert(self.buckets@[j] == old_buckets[j]);
                        }
                    }
                }
            },
        }
        assert forall|i: int|
            0 <= i < old(self).buckets().len() implies (#[trigger] self.buckets()[i]) == (if old(
                self,
            ).buckets()[i].0 == effective_rate(rate_ms) {
                (old(self).buckets()[i].0, old(self).buckets()[i].1.push(key), old(self).buckets()[i].2)
            } else {
                old(self).buckets()[i]
            }) by {}
    }

    /// Unregisters group `key`: it leaves the registry and the bucket of
    /// its rate.  An unknown key changes nothing.
    pub fn unregister(&mut self, key: u32)
        requires
            old(self).wf(),
        ensures
            final(self).wf(),
            final(self).registry() == old(self).registry().remove(key),
            !old(self).registry().contains_key(key) ==> final(self).buckets() == old(self).buckets(),
            old(self).registry().contains_key(key) ==> final(self).buckets().len() == old(self).buckets().len()
                && forall|i: int|
                0 <= i < old(self).buckets().len() ==> (#[trigger] final(self).buckets()[i]) == (if old(
                    self,
                ).buckets()[i].0 == old(self).registry()[key].1 {
                    (
                        old(self).buckets()[i].0,
                        old(self).buckets()[i].1.filter(other_than(key)),
                        old(self).buckets()[i].2,
                    )
                } else {
                    old(self).buckets()[i]
                }),
    {
        let removed = self.registry.remove(&key);
        match removed {
            None => {},
            Some(entry) => {
                let rate = entry.1;
                let ghost old_buckets = self.buckets@;
                match self.find_bucket(rate) {
                    Some(i) => {
                        let mut b = self.buckets.remove(i);
                        let kept = without_key(&b.jobs, key);
                        b.jobs = kept;
                        self.buckets.insert(i, b);
                        proof {
                            assert forall|j: int, l: int|
                                0 <= j < l < self.buckets@.len() implies #[trigger] self.buckets@[j].rate_ms
                                != #[trigger] self.buckets@[l].rate_ms by {
                                assert(old_buckets[j].rate_ms != old_buckets[l].rate_ms);
                            }
                            assert forall|k: u32| #[trigger] self.registry@.contains_key(k) implies exists|j: int|
                                0 <= j < self.buckets@.len() && self.buckets@[j].rate_ms == self.registry@[k].1
                                    && (#[trigger] self.buckets@[j]).jobs@.contains(k) by {
                                let j = choose|j: int|
                                    0 <= j < old_buckets.len() && old_buckets[j].rate_ms == old(self).registry@[k].1
                                        && (#[trigger] old_buckets[j]).jobs@.contains(k);
                                if j == i {
                                    let p = choose|p: int| 0 <= p < old_buckets[j].jobs@.len() && old_buckets[j].jobs@[p] == k;
                                    old_buckets[j].jobs@.lemma_filter_contains_rev(other_than(key), k);
                                    assert(self.buckets@[j].jobs@ == old_buckets[j].jobs@.filter(other_than(key)));
                                    assert(self.buckets@[j].jobs@.contains(k));
                                    assert(old_buckets[j].jobs@.filter(other_than(key)).contains(k));
                                } else {
                                    assert(self.buckets@[j] == old_buckets[j]);
                                }
                            }
                        }
                    },
                    None => {
                        proof {
                            let j = choose|j: int|
                                0 <= j < old_buckets.len() && old_buckets[j].rate_ms == old(self).registry@[key].1
                                    && (#[trigger] old_buckets[j]).jobs@.contains(key);
                            assert(old_buckets[j].rate_ms == rate);
                        }
                    },
                }
            },
        }
        assert(!old(self).registry().contains_key(key) ==> self.buckets() =~= old(self).buckets());
    }

    /// One tick at `now`: every due bucket (`now` at or past its due time)
    /// moves its due time on by its rate and hands out its groups; the
    /// result lists them bucket by bucket.
    pub fn tick(&mut self, now_ms: u64) -> (due: Vec<u32>)
        requires
            old(self).wf(),
            now_ms <= CLOCK_LIMIT_MS,
        ensures
            final(self).wf(),
            final(self).registry() == old(self).registry(),
            due@ == due_keys(old(self).buckets(), now_ms),
            final(self).buckets().len() == old(self).buckets().len(),
            forall|i: int|
                0 <= i < old(self).buckets().len() ==> #[trigger] final(self).buckets()[i] == ticked(
                    old(self).buckets()[i],
                    now_ms,
                ),
    {
        let mut due: Vec<u32> = Vec::new();
        let mut i: usize = 0;
        let ghost old_buckets = self.buckets@;
        let ghost old_view = old(self).buckets();
        while i < self.buckets.len()
            invariant
                i <= self.buckets@.len(),
                self.buckets@.len() == old_buckets.len(),
                old_view == old_buckets.map_values(|b: Bucket| bucket_view(b)),
                old_view == old(self).buckets(),
                self.registry@ == old(self).registry@,
                now_ms <= CLOCK_LIMIT_MS,
                forall|j: int|
                    0 <= j < old_buckets.len() ==> 1 <= #[trigger] old_buckets[j].rate_ms <= u32::MAX
                        && old_buckets[j].next_tick_ms <= CLOCK_LIMIT_MS + u32::MAX,
                forall|j: int|
                    0 <= j < i ==> bucket_view(#[trigger] self.buckets@[j]) == ticked(
                        bucket_view(old_buckets[j]),
                        now_ms,
                    ),
                forall|j: int| i <= j < old_buckets.len() ==> #[trigger] self.buckets@[j] == old_buckets[j],
                due@ == due_keys(old_view.take(i as int), now_ms),
            decreases old_buckets.len() - i,
        {
            proof {
                assert(old_view.take(i + 1).drop_last() =~= old_view.take(i as int));
            }
            if now_ms >= self.buckets[i].next_tick_ms {
                let mut b = self.buckets.remove(i);
                b.next_tick_ms = b.next_tick_ms + b.rate_ms;
                let mut k: usize = 0;
                let ghost before = due@;
                while k < b.jobs.len()
                    invariant
                        k <= b.jobs@.len(),
                        due@ == before + b.jobs@.take(k as int),
                    decreases b.jobs.len() - k,
                {
                    due.push(b.jobs[k]);
                    k = k + 1;
                    assert(due@ =~= before + b.jobs@.take(k as int));
                }
                assert(b.jobs@.take(k as int) =~= b.jobs@);
                self.buckets.insert(i, b);
            }
            i = i + 1;
        }
        proof {
            assert(old_view.take(i as int) =~= old_view);
            assert forall|j: int, l: int|
                0 <= j < l < self.buckets@.len() implies #[trigger] self.buckets@[j].rate_ms
                != #[trigger] self.buckets@[l].rate_ms by {
                assert(bucket_view(self.buckets@[j]).0 == old_buckets[j].rate_ms);
                assert(bucket_view(self.buckets@[l]).0 == old_buckets[l].rate_ms);
            }
            assert forall|k: u32| #[trigger] self.registry@.contains_key(k) implies exists|j: int|
                0 <= j < self.buckets@.len() && self.buckets@[j].rate_ms == self.registry@[k].1
                    && (#[trigger] self.buckets@[j]).jobs@.contains(k) by {
                let j = choose|j: int|
                    0 <= j < old_buckets.len() && old_buckets[j].rate_ms == old(self).registry@[k].1
                        && (#[trigger] old_buckets[j]).jobs@.contains(k);
                assert(bucket_view(self.buckets@[j]).1 == old_buckets[j].jobs@);
            }
            assert forall|j: int| 0 <= j < self.buckets@.len() implies 1 <= #[trigger] self.buckets@[j].rate_ms
                <= u32::MAX && self.buckets@[j].next_tick_ms <= CLOCK_LIMIT_MS + u32::MAX by {
                assert(bucket_view(self.buckets@[j]) == ticked(bucket_view(old_buckets[j]), now_ms));
            }
        }
        assert forall|j: int| 0 <= j < old(self).buckets().len() implies #[trigger] self.buckets()[j] == ticked(
            old(self).buckets()[j],
            now_ms,
        ) by {}
        due
    }
}

/// A due bucket's groups are all among the keys a tick hands out.
proof fn lemma_due_keys_contains(bs: Seq<(u64, Seq<u32>, u64)>, now: u64, i: int, k: u32)
    requires
        0 <= i < bs.len(),
        now >= bs[i].2,
        bs[i].1.contains(k),
    ensures
        due_keys(bs, now).contains(k),
    decreases bs.len(),
{
    let prev = bs.drop_last();
    if i == bs.len() - 1 {
        let p = choose|p: int| 0 <= p < bs[i].1.len() && bs[i].1[p] == k;
        assert(due_keys(bs, now)[due_keys(prev, now).len() + p] == k);
    } else {
        lemma_due_keys_contains(prev, now, i, k);
        let p = choose|p: int| 0 <= p < due_keys(prev, now).len() && due_keys(prev, now)[p] == k;
        if now >= bs.last().2 {
            assert(due_keys(bs, now)[p] == k);
        }
    }
}

impl<J> Scheduler<J> {
    /// The bucket a registered group sits in: the one of its rate.
    pub proof fn lemma_registered_in_bucket(&self, k: u32) -> (i: int)
        requires
            self.wf(),
            self.registry().contains_key(k),
        ensures
            0 <= i < self.buckets().len(),
            self.buckets()[i].0 == self.registry()[k].1,
            self.buckets()[i].1.contains(k),
    {
        let i = choose|i: int|
            0 <= i < self.buckets@.len() && self.buckets@[i].rate_ms == self.registry@[k].1
                && (#[trigger] self.buckets@[i]).jobs@.contains(k);
        i
    }
}

/// Every registered group is handed out by a tick at or after the due time
/// of the bucket of its rate.
pub proof fn lemma_registered_group_is_dispatched<J>(s: Scheduler<J>, k: u32, now: u64)
    requires
        s.wf(),
        s.registry().contains_key(k),
        forall|i: int|
            0 <= i < s.buckets().len() && (#[trigger] s.buckets()[i]).0 == s.registry()[k].1 ==> now
                >= s.buckets()[i].2,
    ensures
        due_keys(s.buckets(), now).contains(k),
{
    let i = s.lemma_registered_in_bucket(k);
    lemma_due_keys_contains(s.buckets(), now, i, k);
}

/// Registering a new group adds one to the count, and unregistering it
/// again gives back the registry it was added to; unregistering an unknown
/// key leaves the registry as it was.
pub proof fn lemma_register_unregister_count<J>(reg: Map<u32, (J, u64)>, key: u32, entry: (J, u64))
    requires
        reg.dom().finite(),
    ensures
        !reg.contains_key(key) ==> reg.insert(key, entry).len() == reg.len() + 1,
        !reg.contains_key(key) ==> reg.insert(key, entry).remove(key) == reg,
        reg.contains_key(key) ==> reg.remove(key).len() == reg.len() - 1,
        !reg.contains_key(key) ==> reg.remove(key) == reg,
{
    if !reg.contains_key(key) {
        assert(reg.insert(key, entry).remove(key) =~= reg);
        assert(reg.remove(key) =~= reg);
    }
}

/// `jobs` without any occurrence of `key`.
fn without_key(jobs: &Vec<u32>, key: u32) -> (r: Vec<u32>)
    ensures
        r@ == jobs@.filter(other_than(key)),
{
    let mut r: Vec<u32> = Vec::new();
    let mut i: usize = 0;
    while i < jobs.len()
        invariant
            i <= jobs@.len(),
            r@ == jobs@.take(i as int).filter(other_than(key)),
        decreases jobs.len() - i,
    {
        proof {
            jobs@.take(i as int).lemma_filter_push(jobs@[i as int], other_than(key));
            assert(jobs@.take(i + 1) =~= jobs@.take(i as int).push(jobs@[i as int]));
        }
        if jobs[i] != key {
            r.push(jobs[i]);
        }
        i = i + 1;
    }
    assert(jobs@.take(i as int) =~= jobs@);
    r
}

} // verus!
