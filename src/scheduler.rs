use std::collections::HashMap;

use vstd::prelude::*;

verus! {

broadcast use vstd::std_specs::hash::group_hash_axioms;

/// Time elapsed from `then` to `now`, in milliseconds; zero when `now` is
/// earlier.
pub open spec fn elapsed(now: u64, then: u64) -> int {
    if now >= then {
        now - then
    } else {
        0
    }
}

/// Whether something last done at `last` (never, when `None`) is due again
/// at `now`, given that it is done every `period` milliseconds.
pub open spec fn is_due(last: Option<u64>, period: u64, now: u64) -> bool {
    match last {
        None => true,
        Some(t) => elapsed(now, t) >= period,
    }
}

fn due(last: Option<u64>, period: u64, now: u64) -> (r: bool)
    ensures
        r == is_due(last, period, now),
{
    match last {
        None => true,
        Some(t) => {
            let e: u64 = if now >= t { now - t } else { 0 };
            e >= period
        },
    }
}

/// A meter to be polled every `period` milliseconds; `last` is when it was
/// last polled.
#[derive(Debug, Clone, Copy, PartialEq, Eq, Structural)]
pub struct Task {
    pub id: u64,
    pub period: u64,
    pub last: Option<u64>,
}

impl Task {
    /// A task for meter `id`, every `period` milliseconds, never run yet.
    pub fn new(id: u64, period: u64) -> (t: Task)
        ensures
            t == (Task { id, period, last: None }),
    {
        Task { id, period, last: None }
    }
}

/// What a scheduler tick decided: which tasks to run now (their indices, in
/// registration order) and whether to publish a snapshot.
pub struct Tick {
    pub run: Vec<usize>,
    pub publish: bool,
}

/// Polls meters at their own intervals and publishes snapshots of the
/// measurements at a separate refresh period (milliseconds).
pub struct Scheduler {
    refresh_period: u64,
    last_refresh: Option<u64>,
    tasks: Vec<Task>,
}

/// A task as it is after a tick at `now`: marked as run when it was due.
pub open spec fn step(t: Task, now: u64) -> Task {
    if is_due(t.last, t.period, now) {
        Task { last: Some(now), ..t }
    } else {
        t
    }
}

/// Each task as it is after a tick at `now`: the due ones marked as run.
pub open spec fn after_tick(tasks: Seq<Task>, now: u64) -> Seq<Task> {
    Seq::new(tasks.len(), |i: int| step(tasks[i], now))
}

/// Task `t` after ticks at times `0, q, 2q, ..., (n - 1)q`: each tick treats
/// it as `Scheduler::tick` does (see `after_tick`).
pub open spec fn polled(t: Task, q: u64, n: nat) -> Task
    decreases n,
{
    if n == 0 {
        t
    } else {
        step(polled(t, q, (n - 1) as nat), ((n - 1) * q) as u64)
    }
}

/// How many of the ticks at times `0, q, 2q, ..., (n - 1)q` run task `t`.
pub open spec fn runs(t: Task, q: u64, n: nat) -> nat
    decreases n,
{
    if n == 0 {
        0
    } else {
        let s = polled(t, q, (n - 1) as nat);
        runs(t, q, (n - 1) as nat) + if is_due(s.last, s.period, ((n - 1) * q) as u64) {
            1nat
        } else {
            0nat
        }
    }
}

proof fn lemma_polled(t: Task, q: u64, m: nat, n: nat)
    requires
        t.last is None,
        q > 0,
        1 <= m <= n + 1,
        n * q <= u64::MAX,
    ensures
        ({
            let s = polled(t, q, m);
            let c = runs(t, q, m) as int;
            let p = t.period as int;
            let now = (m - 1) * q;
            &&& s.period == t.period
            &&& s.last is Some
            &&& c >= 1
            &&& s.last->Some_0 <= now
            &&& (c - 1) * p <= s.last->Some_0
            &&& s.last->Some_0 <= (c - 1) * (p + q)
            &&& (now == s.last->Some_0 || now - s.last->Some_0 < p)
        }),
    decreases m,
{
    assert((m - 1) * q <= n * q) by (nonlinear_arith)
        requires
            m - 1 <= n,
            q > 0,
    ;
    if m == 1 {
        assert(polled(t, q, 0) == t);
        assert(runs(t, q, 0) == 0);
        assert((1 - 1) * q == 0) by (nonlinear_arith);
        assert(polled(t, q, 1) == step(polled(t, q, 0), ((1 - 1) * q) as u64));
        assert(polled(t, q, 1) == step(t, 0u64));
        assert(runs(t, q, 1) == 1);
    } else {
        lemma_polled(t, q, (m - 1) as nat, n);
        let s0 = polled(t, q, (m - 1) as nat);
        let c0 = runs(t, q, (m - 1) as nat) as int;
        let p = t.period as int;
        let l = s0.last->Some_0 as int;
        let prev = (m - 2) * q;
        let now = (m - 1) * q;
        assert(now == prev + q) by (nonlinear_arith)
            requires
                now == (m - 1) * q,
                prev == (m - 2) * q,
        ;
        assert(c0 * p == (c0 - 1) * p + p) by (nonlinear_arith);
        assert(c0 * (p + q) == (c0 - 1) * (p + q) + p + q) by (nonlinear_arith);
        assert((c0 - 1) * (p + q) >= 0) by (nonlinear_arith)
            requires
                c0 >= 1,
                p >= 0,
                q > 0,
        ;        let tm = ((m - 1) * q) as u64;
        assert(tm as int == now);
        assert(polled(t, q, m) == step(s0, tm));
        assert(runs(t, q, m) == runs(t, q, (m - 1) as nat) + if is_due(s0.last, s0.period, tm) {
            1nat
        } else {
            0nat
        });
        assert(elapsed(tm, s0.last->Some_0) == now - l);
    }
}

/// Polling liveness: a task registered without having run, polled every
/// `q` milliseconds from time 0 until time `n * q`, runs `c` times with
/// `c >= 1` (it runs at the first tick), `(c - 1) * period <= n * q` (runs
/// are at least a period apart) and `n * q <= (c - 1) * (period + q) + period`
/// (it runs again at the first tick a period after its last run).
pub proof fn polling_liveness(t: Task, q: u64, n: nat)
    requires
        t.last is None,
        q > 0,
        n * q <= u64::MAX,
    ensures
        ({
            let c = runs(t, q, n + 1) as int;
            &&& c >= 1
            &&& (c - 1) * t.period <= n * q
            &&& n * q <= (c - 1) * (t.period + q) + t.period
        }),
{
    lemma_polled(t, q, n + 1, n);
}

/// Two tasks registered together and polled every `q` milliseconds until
/// time `n * q`: when the first one's period has elapsed by then and the
/// second one's has not, both have run, and the first at least once more
/// than the second.
pub proof fn faster_task_runs_more(fast: Task, slow: Task, q: u64, n: nat)
    requires
        fast.last is None,
        slow.last is None,
        q > 0,
        n * q <= u64::MAX,
        fast.period < n * q < slow.period,
    ensures
        runs(fast, q, n + 1) >= 2,
        runs(slow, q, n + 1) == 1,
{
    polling_liveness(fast, q, n);
    polling_liveness(slow, q, n);
    let cf = runs(fast, q, n + 1) as int;
    let cs = runs(slow, q, n + 1) as int;
    if cf == 1 {
        assert((cf - 1) * (fast.period + q) == 0) by (nonlinear_arith)
            requires
                cf == 1,
        ;
    }
    if cs >= 2 {
        assert((cs - 1) * slow.period >= slow.period) by (nonlinear_arith)
            requires
                cs >= 2,
                slow.period >= 0,
        ;
    }
}

/// `run` lists, in increasing order, exactly the indices of the tasks that
/// are due at `now`.
pub open spec fn lists_due(run: Seq<usize>, tasks: Seq<Task>, now: u64) -> bool {
    &&& forall|a: int, b: int| 0 <= a < b < run.len() ==> run[a] < run[b]
    &&& forall|k: int| 0 <= k < run.len() ==> run[k] < tasks.len()
    &&& forall|i: usize|
        i < tasks.len() ==> (#[trigger] run.contains(i) <==> is_due(tasks[i as int].last, tasks[i as int].period, now))
}

impl Scheduler {
    pub closed spec fn tasks(&self) -> Seq<Task> {
        self.tasks@
    }

    pub closed spec fn refresh_period(&self) -> u64 {
        self.refresh_period
    }

    /// When a snapshot was last published (never, when `None`).
    pub closed spec fn last_refresh(&self) -> Option<u64> {
        self.last_refresh
    }

    /// A scheduler without tasks that publishes every `period` milliseconds.
    pub fn new(period: u64) -> (s: Scheduler)
        ensures
            s.tasks() == Seq::<Task>::empty(),
            s.refresh_period() == period,
            s.last_refresh() == None::<u64>,
    {
        Scheduler { refresh_period: period, last_refresh: None, tasks: Vec::new() }
    }

    /// Adds a task after those already registered.
    pub fn register_task(&mut self, task: Task)
        ensures
            final(self).tasks() == old(self).tasks().push(task),
            final(self).refresh_period() == old(self).refresh_period(),
            final(self).last_refresh() == old(self).last_refresh(),
    {
        self.tasks.push(task);
    }

    /// The registered tasks, in registration order.
    pub fn task_list(&self) -> (t: &Vec<Task>)
        ensures
            t@ == self.tasks(),
    {
        &self.tasks
    }

    /// One turn of the polling loop at time `now`: every task whose interval
    /// has elapsed since it last ran is marked as run at `now` and listed,
    /// and a publish is asked for when the refresh period has elapsed since
    /// the last one.
    pub fn tick(&mut self, now: u64) -> (t: Tick)
        ensures
            final(self).tasks() == after_tick(old(self).tasks(), now),
            lists_due(t.run@, old(self).tasks(), now),
            t.publish == is_due(old(self).last_refresh(), old(self).refresh_period(), now),
            final(self).last_refresh() == if t.publish {
                Some(now)
            } else {
                old(self).last_refresh()
            },
            final(self).refresh_period() == old(self).refresh_period(),
    {
        let ghost orig = self.tasks@;
        let mut run: Vec<usize> = Vec::new();
        let mut i: usize = 0;
        while i < self.tasks.len()
            invariant
                self.tasks@.len() == orig.len(),
                i <= orig.len(),
                self.refresh_period == old(self).refresh_period,
                self.last_refresh == old(self).last_refresh,
                orig == old(self).tasks@,
                forall|k: int| 0 <= k < i ==> self.tasks@[k] == after_tick(orig, now)[k],
                forall|k: int| i <= k < orig.len() ==> self.tasks@[k] == orig[k],
                forall|a: int, b: int| 0 <= a < b < run@.len() ==> run@[a] < run@[b],
                forall|k: int| 0 <= k < run@.len() ==> run@[k] < i,
                forall|k: int|
                    0 <= k < i ==> (run@.contains(k as usize) <==> is_due(orig[k].last, orig[k].period, now)),
            decreases orig.len() - i,
        {
            let t = self.tasks[i];
            if due(t.last, t.period, now) {
                self.tasks.set(i, Task { last: Some(now), ..t });
                let ghost prev = run@;
                run.push(i);
                proof {
                    assert forall|k: int| 0 <= k < i + 1 implies (run@.contains(k as usize) <==> is_due(
                        orig[k].last,
                        orig[k].period,
                        now,
                    )) by {
                        if k < i {
                            if prev.contains(k as usize) {
                                let j = choose|j: int| 0 <= j < prev.len() && prev[j] == k as usize;
                                assert(run@[j] == k as usize);
                            }
                            if run@.contains(k as usize) {
                                let j = choose|j: int| 0 <= j < run@.len() && run@[j] == k as usize;
                                assert(j < prev.len());
                                assert(prev[j] == k as usize);
                            }
                        } else {
                            assert(run@[prev.len() as int] == k as usize);
                        }
                    }
                }
            } else {
                proof {
                    assert(!run@.contains(i));
                }
            }
            i += 1;
        }
        proof {
            assert(self.tasks@ =~= after_tick(orig, now));
            assert forall|j: usize| j < orig.len() implies (#[trigger] run@.contains(j) <==> is_due(
                orig[j as int].last,
                orig[j as int].period,
                now,
            )) by {
                assert((j as int) as usize == j);
            }
        }
        let publish = due(self.last_refresh, self.refresh_period, now);
        if publish {
            self.last_refresh = Some(now);
        }
        Tick { run, publish }
    }
}

/// Stores a measurement of meter `id` in `snapshot`: a value replaces the
/// meter's entry, a failure leaves it as it was. Ids without an entry are
/// ignored, so the set of keys never changes.
pub fn record_measurement<V, E>(snapshot: &mut HashMap<u64, V>, id: u64, outcome: Result<V, E>)
    ensures
        final(snapshot)@.dom() == old(snapshot)@.dom(),
        final(snapshot)@ == match outcome {
            Ok(v) => if old(snapshot)@.contains_key(id) {
                old(snapshot)@.insert(id, v)
            } else {
                old(snapshot)@
            },
            Err(_) => old(snapshot)@,
        },
{
    match outcome {
        Ok(v) => {
            if snapshot.contains_key(&id) {
                snapshot.insert(id, v);
                proof {
                    assert(final(snapshot)@.dom() =~= old(snapshot)@.dom());
                }
            }
        },
        Err(_) => {},
    }
}

/// A snapshot with one entry per id in `ids`, each holding `initial`.
pub fn initial_snapshot<V: Copy>(ids: &Vec<u64>, initial: V) -> (m: HashMap<u64, V>)
    ensures
        forall|k: u64| m@.contains_key(k) <==> ids@.contains(k),
        forall|k: u64| #[trigger] m@.contains_key(k) ==> m@[k] == initial,
{
    let mut m: HashMap<u64, V> = HashMap::new();
    let mut i: usize = 0;
    while i < ids.len()
        invariant
            i <= ids@.len(),
            forall|k: u64| m@.contains_key(k) <==> exists|j: int| 0 <= j < i && #[trigger] ids@[j] == k,
            forall|k: u64| #[trigger] m@.contains_key(k) ==> m@[k] == initial,
        decreases ids@.len() - i,
    {
        m.insert(ids[i], initial);
        proof {
            assert forall|k: u64| m@.contains_key(k) <==> exists|j: int| 0 <= j < i + 1 && #[trigger] ids@[j] == k by {
                if k == ids@[i as int] {
                    assert(ids@[i as int] == k);
                }
            }
        }
        i += 1;
    }
    m
}

/// A single-slot mailbox: holds at most one item, and a new item offered
/// while it is full is dropped rather than queued or waited for.
pub struct Mailbox<T> {
    slot: Option<T>,
}

impl<T> Mailbox<T> {
    pub closed spec fn content(&self) -> Option<T> {
        self.slot
    }

    pub fn new() -> (m: Mailbox<T>)
        ensures
            m.content() == None::<T>,
    {
        Mailbox { slot: None }
    }

    /// Offers `item`: it is stored when the mailbox is empty and dropped
    /// otherwise. Returns whether it was stored.
    pub fn try_send(&mut self, item: T) -> (stored: bool)
        ensures
            stored == (old(self).content() is None),
            final(self).content() == if stored {
                Some(item)
            } else {
                old(self).content()
            },
    {
        if self.slot.is_none() {
            self.slot = Some(item);
            true
        } else {
            false
        }
    }

    /// Takes the stored item out, leaving the mailbox empty.
    pub fn take(&mut self) -> (item: Option<T>)
        ensures
            item == old(self).content(),
            final(self).content() == None::<T>,
    {
        let mut out: Option<T> = None;
        std::mem::swap(&mut out, &mut self.slot);
        out
    }

    pub fn is_full(&self) -> (full: bool)
        ensures
            full == (self.content() is Some),
    {
        self.slot.is_some()
    }
}

} // verus!
