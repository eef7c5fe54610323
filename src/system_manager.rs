use vstd::prelude::*;

use crate::entity_manager::EntityManager;
use crate::system::System;

verus! {

/// What the manager knows of a registered system: its ranking value and the
/// key its subscribers are registered under, both read once when it was added.
#[derive(Clone, Copy, Debug, PartialEq, Eq, Structural)]
pub struct SystemRecord {
    pub priority: u32,
    pub system_type: u32,
}

/// A registered system together with its record.
pub struct SystemEntry<S> {
    pub system: S,
    pub record: SystemRecord,
}

/// Whether the records are in ascending order of priority.
pub open spec fn sorted_by_priority(records: Seq<SystemRecord>) -> bool {
    forall|i: int, j: int| 0 <= i < j < records.len() ==> records[i].priority <= records[j].priority
}

/// The number of leading records whose priority is at most `p`: where a stable
/// sort places a new record of priority `p` appended after them.
pub open spec fn insertion_point(records: Seq<SystemRecord>, p: u32) -> int
    decreases records.len(),
{
    if records.len() == 0 || records[0].priority > p {
        0
    } else {
        1 + insertion_point(records.drop_first(), p)
    }
}

/// The records after appending `r` and re-sorting stably by priority.
pub open spec fn insert_by_priority(records: Seq<SystemRecord>, r: SystemRecord) -> Seq<
    SystemRecord,
> {
    records.insert(insertion_point(records, r.priority), r)
}

/// The subscription log after registering `id` under `system_type`: unchanged
/// when that pair is there already.
pub open spec fn subscribed(subs: Seq<(u32, u32)>, system_type: u32, id: u32) -> Seq<(u32, u32)> {
    if subs.contains((system_type, id)) {
        subs
    } else {
        subs.push((system_type, id))
    }
}

/// The entities subscribed under `system_type`, in order of registration.
pub open spec fn subscribers(subs: Seq<(u32, u32)>, system_type: u32) -> Seq<u32>
    decreases subs.len(),
{
    if subs.len() == 0 {
        Seq::empty()
    } else {
        let rest = subscribers(subs.drop_last(), system_type);
        if subs.last().0 == system_type {
            rest.push(subs.last().1)
        } else {
            rest
        }
    }
}

/// One tick's invocations of the first `n` systems, as (system index, entity id)
/// pairs: system by system in order, each over its subscribers.
pub open spec fn plan(records: Seq<SystemRecord>, subs: Seq<(u32, u32)>, n: int) -> Seq<
    (usize, u32),
>
    decreases n,
{
    if n <= 0 {
        Seq::empty()
    } else {
        plan(records, subs, n - 1) + subscribers(subs, records[n - 1].system_type).map_values(
            |id: u32| ((n - 1) as usize, id),
        )
    }
}

/// Whether `ss` and `ms` trace a tick that follows `plan`: `ss[k]` and `ms[k]`
/// are the systems and the entity manager before the `k`-th invocation, and
/// that invocation runs only the system `plan[k].0`, once, for entity
/// `plan[k].1`, changing nothing but that system and the entity manager.
pub open spec fn tick_steps<S: System>(
    plan: Seq<(usize, u32)>,
    ss: Seq<Seq<S>>,
    ms: Seq<EntityManager<S>>,
) -> bool {
    &&& ss.len() == plan.len() + 1
    &&& ms.len() == plan.len() + 1
    &&& forall|k: int|
        0 <= k < plan.len() ==> {
            let i = (#[trigger] plan[k]).0 as int;
            &&& 0 <= i < ss[k].len()
            &&& ss[k + 1] == ss[k].update(i, ss[k + 1][i])
            &&& S::updated(ss[k][i], ms[k], plan[k].1, ss[k + 1][i], ms[k + 1])
        }
}

/// Owns the systems, in ascending priority order, and the subscriptions of
/// entities to system types.
pub struct SystemManager<S> {
    systems: Vec<SystemEntry<S>>,
    subscriptions: Vec<(u32, u32)>,
}

impl<S: System> SystemManager<S> {
    /// The records of the systems, in the order they run.
    pub closed spec fn records(self) -> Seq<SystemRecord> {
        self.systems@.map_values(|e: SystemEntry<S>| e.record)
    }

    /// The systems, in the order they run.
    pub closed spec fn systems(self) -> Seq<S> {
        self.systems@.map_values(|e: SystemEntry<S>| e.system)
    }

    /// There is one record per system.
    pub proof fn lemma_one_record_each(self)
        ensures
            self.systems().len() == self.records().len(),
    {
    }

    /// Every (system type, entity id) registration, once each, in order of registration.
    pub closed spec fn subscriptions(self) -> Seq<(u32, u32)> {
        self.subscriptions@
    }

    /// The invocations one tick makes, in order.
    pub open spec fn tick_plan(self) -> Seq<(usize, u32)> {
        plan(self.records(), self.subscriptions(), self.records().len() as int)
    }

    pub fn new() -> (m: SystemManager<S>)
        ensures
            m.records() == Seq::<SystemRecord>::empty(),
            m.systems() == Seq::<S>::empty(),
            m.subscriptions() == Seq::<(u32, u32)>::empty(),
    {
        let m = SystemManager { systems: Vec::new(), subscriptions: Vec::new() };
        assert(m.records() =~= Seq::empty());
        assert(m.systems() =~= Seq::empty());
        m
    }

    /// Adds `system` and keeps the systems stably sorted by priority.
    pub fn add_system(&mut self, system: S)
        ensures
            final(self).records() == insert_by_priority(
                old(self).records(),
                SystemRecord { priority: system.spec_priority(), system_type: system.spec_system_type() },
            ),
            final(self).systems() == old(self).systems().insert(
                insertion_point(old(self).records(), system.spec_priority()),
                system,
            ),
            sorted_by_priority(old(self).records()) ==> sorted_by_priority(final(self).records()),
            final(self).subscriptions() == old(self).subscriptions(),
    {
        let record = SystemRecord { priority: system.priority(), system_type: system.system_type() };
        let mut i: usize = 0;
        while i < self.systems.len() && self.systems[i].record.priority <= record.priority
            invariant
                i <= self.systems@.len(),
                forall|j: int| 0 <= j < i ==> self.systems@[j].record.priority <= record.priority,
            decreases self.systems@.len() - i,
        {
            i += 1;
        }
        proof {
            lemma_insertion_point(self.records(), record.priority, i as int);
        }
        self.systems.insert(i, SystemEntry { system, record });
        proof {
            assert(self.records() =~= old(self).records().insert(i as int, record));
            assert(self.systems() =~= old(self).systems().insert(i as int, system));
            lemma_insert_keeps_sorted(old(self).records(), record);
        }
    }

    /// Subscribes entity `entity_id` to the systems of type `system_type`; a
    /// second registration of the same pair changes nothing.
    pub fn register_entity_to_system(&mut self, system_type: u32, entity_id: u32)
        ensures
            final(self).subscriptions() == subscribed(old(self).subscriptions(), system_type, entity_id),
            old(self).subscriptions().no_duplicates() ==> final(self).subscriptions().no_duplicates(),
            final(self).records() == old(self).records(),
            final(self).systems() == old(self).systems(),
    {
        proof {
            if old(self).subscriptions().no_duplicates() {
                lemma_subscribed_distinct(old(self).subscriptions(), system_type, entity_id);
            }
        }
        let ghost pair = (system_type, entity_id);
        let mut i: usize = 0;
        while i < self.subscriptions.len()
            invariant
                i <= self.subscriptions@.len(),
                pair == (system_type, entity_id),
                forall|j: int| 0 <= j < i ==> self.subscriptions@[j] != pair,
            decreases self.subscriptions@.len() - i,
        {
            let (t, id) = self.subscriptions[i];
            if t == system_type && id == entity_id {
                proof {
                    assert(self.subscriptions@[i as int] == pair);
                }
                return;
            }
            i += 1;
        }
        proof {
            assert(!self.subscriptions@.contains(pair));
        }
        self.subscriptions.push((system_type, entity_id));
    }

    /// The invocations of one tick, as (system index, entity id) pairs.
    pub fn schedule(&self) -> (r: Vec<(usize, u32)>)
        ensures
            r@ == self.tick_plan(),
    {
        let mut out: Vec<(usize, u32)> = Vec::new();
        let mut i: usize = 0;
        while i < self.systems.len()
            invariant
                i <= self.systems@.len(),
                out@ == plan(self.records(), self.subscriptions(), i as int),
            decreases self.systems@.len() - i,
        {
            let key = self.systems[i].record.system_type;
            let ghost base = out@;
            let mut j: usize = 0;
            while j < self.subscriptions.len()
                invariant
                    i < self.systems@.len(),
                    key == self.records()[i as int].system_type,
                    j <= self.subscriptions@.len(),
                    out@ == base + subscribers(self.subscriptions@.take(j as int), key).map_values(
                        |id: u32| (i, id),
                    ),
                decreases self.subscriptions@.len() - j,
            {
                let (t, id) = self.subscriptions[j];
                proof {
                    let s = self.subscriptions@.take(j as int + 1);
                    assert(s.drop_last() == self.subscriptions@.take(j as int));
                }
                if t == key {
                    out.push((i, id));
                    proof {
                        let f = |id: u32| (i, id);
                        let before = subscribers(self.subscriptions@.take(j as int), key);
                        assert(before.push(id).map_values(f) =~= before.map_values(f).push(
                            (i, id),
                        ));
                    }
                }
                j += 1;
            }
            proof {
                assert(self.subscriptions@.take(j as int) == self.subscriptions@);
                let f1 = |id: u32| (i, id);
                let f2 = |id: u32| (((i + 1) as int - 1) as usize, id);
                assert(f1 == f2);
            }
            i += 1;
        }
        out
    }

    /// Runs one tick: each system in priority order, once for each entity
    /// subscribed to its type, exactly as `schedule` lists them.
    pub fn update_systems(&mut self, entity_manager: &mut EntityManager<S>)
        ensures
            exists|ss: Seq<Seq<S>>, ms: Seq<EntityManager<S>>|
                {
                    &&& tick_steps(old(self).tick_plan(), ss, ms)
                    &&& ss[0] == old(self).systems()
                    &&& ms[0] == *old(entity_manager)
                    &&& ss.last() == final(self).systems()
                    &&& ms.last() == *final(entity_manager)
                },
            final(self).records() == old(self).records(),
            final(self).subscriptions() == old(self).subscriptions(),
            old(entity_manager).wf() ==> final(entity_manager).wf(),
            final(entity_manager).next_id() >= old(entity_manager).next_id(),
    {
        let plan = self.schedule();
        let ghost mut ss: Seq<Seq<S>> = seq![self.systems()];
        let ghost mut ms: Seq<EntityManager<S>> = seq![*entity_manager];
        let mut k: usize = 0;
        while k < plan.len()
            invariant
                self.records() == old(self).records(),
                self.subscriptions() == old(self).subscriptions(),
                plan@ == old(self).tick_plan(),
                k <= plan@.len(),
                ss.len() == k + 1,
                ms.len() == k + 1,
                ss[0] == old(self).systems(),
                ms[0] == *old(entity_manager),
                ss.last() == self.systems(),
                ms.last() == *entity_manager,
                forall|j: int|
                    0 <= j < k ==> {
                        let i = (#[trigger] plan@[j]).0 as int;
                        &&& 0 <= i < ss[j].len()
                        &&& ss[j + 1] == ss[j].update(i, ss[j + 1][i])
                        &&& S::updated(ss[j][i], ms[j], plan@[j].1, ss[j + 1][i], ms[j + 1])
                    },
                old(entity_manager).wf() ==> entity_manager.wf(),
                entity_manager.next_id() >= old(entity_manager).next_id(),
            decreases plan@.len() - k,
        {
            let (i, id) = plan[k];
            proof {
                lemma_plan_indices(self.records(), self.subscriptions(), self.records().len() as int, k as int);
                self.lemma_one_record_each();
            }
            let ghost before = self.systems@;
            let ghost sys_before = self.systems();
            let ghost em_before = *entity_manager;
            self.systems[i].system.update(entity_manager, id);
            proof {
                assert(self.records() =~= old(self).records()) by {
                    assert forall|j: int| 0 <= j < self.systems@.len() implies self.systems@[j].record == before[j].record by {
                    }
                }
                assert(self.systems() =~= sys_before.update(i as int, self.systems()[i as int]));
                let ss0 = ss;
                let ms0 = ms;
                ss = ss.push(self.systems());
                ms = ms.push(*entity_manager);
                assert forall|j: int|
                    0 <= j < k + 1 implies {
                        let i = (#[trigger] plan@[j]).0 as int;
                        &&& 0 <= i < ss[j].len()
                        &&& ss[j + 1] == ss[j].update(i, ss[j + 1][i])
                        &&& S::updated(ss[j][i], ms[j], plan@[j].1, ss[j + 1][i], ms[j + 1])
                    } by {
                    if j < k {
                        assert(ss[j] == ss0[j] && ss[j + 1] == ss0[j + 1]);
                        assert(ms[j] == ms0[j] && ms[j + 1] == ms0[j + 1]);
                    } else {
                        assert(ss[j] == sys_before);
                        assert(ms[j] == em_before);
                    }
                }
            }
            k += 1;
        }
        proof {
            assert(tick_steps(old(self).tick_plan(), ss, ms));
        }
    }
}

/// The priorities of `records`, in order.
pub open spec fn priorities(records: Seq<SystemRecord>) -> Seq<u32> {
    records.map_values(|r: SystemRecord| r.priority)
}

/// Whether `s` is in ascending order.
pub open spec fn ascending(s: Seq<u32>) -> bool {
    forall|i: int, j: int| 0 <= i < j < s.len() ==> s[i] <= s[j]
}

/// Two ascending sequences with the same elements, counted with multiplicity,
/// are equal.
pub proof fn lemma_ascending_unique(a: Seq<u32>, b: Seq<u32>)
    requires
        ascending(a),
        ascending(b),
        a.to_multiset() == b.to_multiset(),
    ensures
        a == b,
    decreases a.len(),
{
    a.to_multiset_ensures();
    b.to_multiset_ensures();
    if a.len() > 0 {
        assert(a.contains(a[0]));
        assert(a.to_multiset().count(a[0]) > 0);
        assert(b.contains(a[0]));
        assert(b.contains(b[0]));
        assert(b.to_multiset().count(b[0]) > 0);
        assert(a.contains(b[0]));
        let j = choose|j: int| 0 <= j < b.len() && b[j] == a[0];
        let k = choose|k: int| 0 <= k < a.len() && a[k] == b[0];
        if j > 0 {
            assert(b[0] <= b[j]);
        }
        if k > 0 {
            assert(a[0] <= a[k]);
        }
        let (a1, b1) = (a.remove(0), b.remove(0));
        assert(a1.to_multiset() == b1.to_multiset());
        assert(ascending(a1)) by {
            assert forall|x: int, y: int| 0 <= x < y < a1.len() implies a1[x] <= a1[y] by {
                assert(a1[x] == a[x + 1] && a1[y] == a[y + 1]);
            }
        }
        assert(ascending(b1)) by {
            assert forall|x: int, y: int| 0 <= x < y < b1.len() implies b1[x] <= b1[y] by {
                assert(b1[x] == b[x + 1] && b1[y] == b[y + 1]);
            }
        }
        lemma_ascending_unique(a1, b1);
        assert forall|i: int| 0 <= i < a.len() implies a[i] == b[i] by {
            if i > 0 {
                assert(a[i] == a1[i - 1] && b[i] == b1[i - 1]);
            }
        }
        assert(a =~= b);
    } else {
        assert(a =~= b);
    }
}

/// Adding a system adds its priority to the priorities, counted with multiplicity.
pub proof fn lemma_insert_adds_priority(records: Seq<SystemRecord>, r: SystemRecord)
    ensures
        priorities(insert_by_priority(records, r)).to_multiset() == priorities(
            records,
        ).to_multiset().insert(r.priority),
{
    lemma_insertion_point_bounds(records, r.priority);
    let k = insertion_point(records, r.priority);
    let p = priorities(records);
    let q = priorities(insert_by_priority(records, r));
    assert(q =~= p.insert(k, r.priority));
    assert(q.remove(k) =~= p);
    q.to_multiset_ensures();
    p.to_multiset_ensures();
    assert(q.contains(r.priority)) by {
        assert(q[k] == r.priority);
    }
    assert(q.to_multiset() =~= p.to_multiset().insert(r.priority));
}

/// However the same systems were added, a stably sorted manager runs their
/// priorities in the same, ascending order.
pub proof fn lemma_insertion_order_irrelevant(a: Seq<SystemRecord>, b: Seq<SystemRecord>)
    requires
        sorted_by_priority(a),
        sorted_by_priority(b),
        priorities(a).to_multiset() == priorities(b).to_multiset(),
    ensures
        priorities(a) == priorities(b),
        ascending(priorities(a)),
{
    lemma_ascending_unique(priorities(a), priorities(b));
}

/// A tick visits systems in the order of their index: every invocation of a
/// system comes before every invocation of a later one.
proof fn lemma_plan_index_order(records: Seq<SystemRecord>, subs: Seq<(u32, u32)>, n: int)
    requires
        0 <= n <= records.len(),
        records.len() <= usize::MAX,
    ensures
        forall|a: int, b: int|
            0 <= a < b < plan(records, subs, n).len() ==> plan(records, subs, n)[a].0 <= plan(
                records,
                subs,
                n,
            )[b].0,
        forall|a: int|
            0 <= a < plan(records, subs, n).len() ==> (plan(records, subs, n)[a].0 as int) < n,
    decreases n,
{
    if n > 0 {
        lemma_plan_index_order(records, subs, n - 1);
        let head = plan(records, subs, n - 1);
        let tail = subscribers(subs, records[n - 1].system_type).map_values(
            |id: u32| ((n - 1) as usize, id),
        );
        let full = plan(records, subs, n);
        assert(full == head + tail);
        assert forall|a: int| 0 <= a < full.len() implies (full[a].0 as int) < n by {
            if a < head.len() {
                assert(full[a] == head[a]);
            }
            if a >= head.len() {
                assert(full[a] == tail[a - head.len()]);
                assert(tail[a - head.len()].0 == (n - 1) as usize);
            }
        }
        assert forall|a: int, b: int| 0 <= a < b < full.len() implies full[a].0 <= full[b].0 by {
            if a < head.len() {
                assert(full[a] == head[a]);
            }
            if b < head.len() {
                assert(full[b] == head[b]);
            }
            if b >= head.len() {
                assert(full[b] == tail[b - head.len()]);
                assert(tail[b - head.len()].0 == (n - 1) as usize);
                if a >= head.len() {
                    assert(full[a] == tail[a - head.len()]);
                    assert(tail[a - head.len()].0 == (n - 1) as usize);
                }
            }
        }
    }
}

/// When the systems are sorted by priority, a tick invokes them in ascending
/// order of priority.
pub proof fn lemma_plan_follows_priority(records: Seq<SystemRecord>, subs: Seq<(u32, u32)>)
    requires
        sorted_by_priority(records),
        records.len() <= usize::MAX,
    ensures
        ({
            let p = plan(records, subs, records.len() as int);
            forall|a: int, b: int|
                0 <= a < b < p.len() ==> records[p[a].0 as int].priority <= records[p[b].0 as int].priority
        }),
{
    lemma_plan_index_order(records, subs, records.len() as int);
}

/// A system that no entity is subscribed to is never invoked.
pub proof fn lemma_unsubscribed_never_runs(
    records: Seq<SystemRecord>,
    subs: Seq<(u32, u32)>,
    n: int,
    i: int,
)
    requires
        0 <= i < records.len(),
        0 <= n <= records.len(),
        records.len() <= usize::MAX,
        subscribers(subs, records[i].system_type).len() == 0,
    ensures
        forall|a: int| 0 <= a < plan(records, subs, n).len() ==> plan(records, subs, n)[a].0 != i,
    decreases n,
{
    if n > 0 {
        lemma_unsubscribed_never_runs(records, subs, n - 1, i);
        let head = plan(records, subs, n - 1);
        let tail = subscribers(subs, records[n - 1].system_type).map_values(
            |id: u32| ((n - 1) as usize, id),
        );
        let full = plan(records, subs, n);
        assert forall|a: int| 0 <= a < full.len() implies full[a].0 != i by {
            if a < head.len() {
                assert(full[a] == head[a]);
            }
            if a >= head.len() {
                assert(full[a] == tail[a - head.len()]);
                assert(tail[a - head.len()].0 == (n - 1) as usize);
                if n - 1 == i {
                    assert(tail.len() == 0);
                }
            }
        }
    }
}

/// Registering the same entity to the same system type twice gives the
/// subscriptions that registering it once gives.
pub proof fn lemma_register_idempotent(subs: Seq<(u32, u32)>, system_type: u32, id: u32)
    ensures
        subscribed(subscribed(subs, system_type, id), system_type, id) == subscribed(
            subs,
            system_type,
            id,
        ),
{
    let once = subscribed(subs, system_type, id);
    assert(once.contains((system_type, id))) by {
        if !subs.contains((system_type, id)) {
            assert(once[subs.len() as int] == (system_type, id));
        }
    }
}

/// In a tick that follows the plan, a system that no entity is subscribed to
/// is never run: it is never the system a step updates, and it ends the tick
/// exactly as it began.
pub proof fn lemma_unsubscribed_system_untouched<S: System>(
    records: Seq<SystemRecord>,
    subs: Seq<(u32, u32)>,
    ss: Seq<Seq<S>>,
    ms: Seq<EntityManager<S>>,
    i: int,
)
    requires
        records.len() <= usize::MAX,
        0 <= i < records.len(),
        subscribers(subs, records[i].system_type).len() == 0,
        tick_steps(plan(records, subs, records.len() as int), ss, ms),
        ss[0].len() == records.len(),
    ensures
        forall|k: int|
            0 <= k < plan(records, subs, records.len() as int).len() ==> plan(
                records,
                subs,
                records.len() as int,
            )[k].0 != i,
        forall|k: int| 0 <= k < ss.len() ==> #[trigger] ss[k].len() == records.len() && ss[k][i] == ss[0][i],
{
    let p = plan(records, subs, records.len() as int);
    lemma_unsubscribed_never_runs(records, subs, records.len() as int, i);
    assert forall|k: int| 0 <= k < ss.len() implies #[trigger] ss[k].len() == records.len() && ss[k][i] == ss[0][i] by {
        lemma_untouched_upto(records, subs, ss, ms, i, k);
    }
}

proof fn lemma_untouched_upto<S: System>(
    records: Seq<SystemRecord>,
    subs: Seq<(u32, u32)>,
    ss: Seq<Seq<S>>,
    ms: Seq<EntityManager<S>>,
    i: int,
    k: int,
)
    requires
        0 <= i < records.len(),
        tick_steps(plan(records, subs, records.len() as int), ss, ms),
        ss[0].len() == records.len(),
        forall|a: int|
            0 <= a < plan(records, subs, records.len() as int).len() ==> plan(
                records,
                subs,
                records.len() as int,
            )[a].0 != i,
        0 <= k < ss.len(),
    ensures
        ss[k].len() == records.len(),
        ss[k][i] == ss[0][i],
    decreases k,
{
    if k > 0 {
        lemma_untouched_upto(records, subs, ss, ms, i, k - 1);
        let p = plan(records, subs, records.len() as int);
        let j = p[k - 1].0 as int;
        assert(ss[k] == ss[k - 1].update(j, ss[k][j]));
    }
}

/// An entity is among the subscribers of a type exactly when that pair was registered.
pub proof fn lemma_subscribers_contains(subs: Seq<(u32, u32)>, system_type: u32, id: u32)
    ensures
        subscribers(subs, system_type).contains(id) <==> subs.contains((system_type, id)),
    decreases subs.len(),
{
    if subs.len() > 0 {
        let rest = subs.drop_last();
        lemma_subscribers_contains(rest, system_type, id);
        let h = subscribers(rest, system_type);
        if subs.contains((system_type, id)) {
            let j = choose|j: int| 0 <= j < subs.len() && subs[j] == (system_type, id);
            if j < rest.len() {
                assert(rest[j] == subs[j]);
                let q = choose|q: int| 0 <= q < h.len() && h[q] == id;
                if subs.last().0 == system_type {
                    assert(h.push(subs.last().1)[q] == id);
                }
            } else if subs.last().0 == system_type {
                assert(h.push(subs.last().1)[h.len() as int] == id);
            }
        }
        if subscribers(subs, system_type).contains(id) {
            if subs.last().0 == system_type {
                let q = choose|q: int| 0 <= q < h.len() + 1 && h.push(subs.last().1)[q] == id;
                if q < h.len() {
                    assert(h[q] == id);
                    let j = choose|j: int| 0 <= j < rest.len() && rest[j] == (system_type, id);
                    assert(subs[j] == rest[j]);
                } else {
                    assert(subs[subs.len() - 1] == (system_type, id));
                }
            } else {
                let j = choose|j: int| 0 <= j < rest.len() && rest[j] == (system_type, id);
                assert(subs[j] == rest[j]);
            }
        }
    }
}

/// Registration keeps the subscriptions free of repeats.
pub proof fn lemma_subscribed_distinct(subs: Seq<(u32, u32)>, system_type: u32, id: u32)
    requires
        subs.no_duplicates(),
    ensures
        subscribed(subs, system_type, id).no_duplicates(),
{
    if !subs.contains((system_type, id)) {
        let s = subs.push((system_type, id));
        assert forall|a: int, b: int| 0 <= a < s.len() && 0 <= b < s.len() && a != b implies s[a] != s[b] by {
            if a == subs.len() {
                assert(subs[b] == s[b]);
            } else if b == subs.len() {
                assert(subs[a] == s[a]);
            } else {
                assert(subs[a] == s[a] && subs[b] == s[b]);
            }
        }
    }
}

/// Without repeated registrations no entity is listed twice for one type.
pub proof fn lemma_subscribers_distinct(subs: Seq<(u32, u32)>, system_type: u32)
    requires
        subs.no_duplicates(),
    ensures
        subscribers(subs, system_type).no_duplicates(),
    decreases subs.len(),
{
    if subs.len() > 0 {
        let rest = subs.drop_last();
        assert(rest.no_duplicates()) by {
            assert forall|a: int, b: int| 0 <= a < rest.len() && 0 <= b < rest.len() && a != b implies rest[a] != rest[b] by {
                assert(rest[a] == subs[a] && rest[b] == subs[b]);
            }
        }
        lemma_subscribers_distinct(rest, system_type);
        let h = subscribers(rest, system_type);
        if subs.last().0 == system_type {
            let id = subs.last().1;
            lemma_subscribers_contains(rest, system_type, id);
            if rest.contains((system_type, id)) {
                let j = choose|j: int| 0 <= j < rest.len() && rest[j] == (system_type, id);
                assert(subs[j] == subs[subs.len() - 1]);
            }
            let f = h.push(id);
            assert forall|a: int, b: int| 0 <= a < f.len() && 0 <= b < f.len() && a != b implies f[a] != f[b] by {
                if a == h.len() {
                    assert(h[b] != id);
                } else if b == h.len() {
                    assert(h[a] != id);
                } else {
                    assert(f[a] == h[a] && f[b] == h[b]);
                }
            }
        }
    }
}

/// Without repeated registrations a tick invokes each system at most once
/// per entity: no (system, entity) pair appears twice in the plan.
pub proof fn lemma_plan_distinct(records: Seq<SystemRecord>, subs: Seq<(u32, u32)>, n: int)
    requires
        subs.no_duplicates(),
        0 <= n <= records.len(),
        records.len() <= usize::MAX,
    ensures
        plan(records, subs, n).no_duplicates(),
    decreases n,
{
    if n > 0 {
        lemma_plan_distinct(records, subs, n - 1);
        lemma_plan_index_order(records, subs, n - 1);
        let head = plan(records, subs, n - 1);
        let ids = subscribers(subs, records[n - 1].system_type);
        lemma_subscribers_distinct(subs, records[n - 1].system_type);
        let tail = ids.map_values(|id: u32| ((n - 1) as usize, id));
        let full = plan(records, subs, n);
        assert(full == head + tail);
        assert forall|a: int, b: int| 0 <= a < full.len() && 0 <= b < full.len() && a != b implies full[a] != full[b] by {
            if a < head.len() && b < head.len() {
                assert(full[a] == head[a] && full[b] == head[b]);
            } else if a >= head.len() && b >= head.len() {
                assert(full[a] == tail[a - head.len()] && full[b] == tail[b - head.len()]);
                assert(ids[a - head.len()] != ids[b - head.len()]);
            } else if a < head.len() {
                assert(full[a] == head[a]);
                assert(full[b] == tail[b - head.len()]);
                assert(tail[b - head.len()].0 == (n - 1) as usize);
            } else {
                assert(full[b] == head[b]);
                assert(full[a] == tail[a - head.len()]);
                assert(tail[a - head.len()].0 == (n - 1) as usize);
            }
        }
    }
}

proof fn lemma_insertion_point(records: Seq<SystemRecord>, p: u32, i: int)
    requires
        0 <= i <= records.len(),
        forall|j: int| 0 <= j < i ==> records[j].priority <= p,
        i == records.len() || records[i].priority > p,
    ensures
        insertion_point(records, p) == i,
    decreases records.len(),
{
    if i > 0 {
        lemma_insertion_point(records.drop_first(), p, i - 1);
    }
}

proof fn lemma_insertion_point_bounds(records: Seq<SystemRecord>, p: u32)
    ensures
        0 <= insertion_point(records, p) <= records.len(),
        forall|j: int| 0 <= j < insertion_point(records, p) ==> records[j].priority <= p,
        sorted_by_priority(records) ==> forall|j: int|
            insertion_point(records, p) <= j < records.len() ==> records[j].priority > p,
    decreases records.len(),
{
    if records.len() > 0 && records[0].priority <= p {
        let rest = records.drop_first();
        lemma_insertion_point_bounds(rest, p);
        assert forall|j: int| 0 <= j < insertion_point(records, p) implies records[j].priority <= p by {
            if j > 0 {
                assert(records[j] == rest[j - 1]);
            }
        }
        if sorted_by_priority(records) {
            assert(sorted_by_priority(rest)) by {
                assert forall|a: int, b: int| 0 <= a < b < rest.len() implies rest[a].priority <= rest[b].priority by {
                    assert(rest[a] == records[a + 1]);
                    assert(rest[b] == records[b + 1]);
                }
            }
            assert forall|j: int| insertion_point(records, p) <= j < records.len() implies records[j].priority > p by {
                assert(records[j] == rest[j - 1]);
            }
        }
    } else if records.len() > 0 && sorted_by_priority(records) {
        assert forall|j: int| 0 <= j < records.len() implies records[j].priority > p by {
            if j > 0 {
                assert(records[0].priority <= records[j].priority);
            }
        }
    }
}

/// Adding a system adds one record.
pub proof fn lemma_insert_len(records: Seq<SystemRecord>, r: SystemRecord)
    ensures
        insert_by_priority(records, r).len() == records.len() + 1,
{
    lemma_insertion_point_bounds(records, r.priority);
}

proof fn lemma_insert_keeps_sorted(records: Seq<SystemRecord>, r: SystemRecord)
    ensures
        sorted_by_priority(records) ==> sorted_by_priority(insert_by_priority(records, r)),
        insert_by_priority(records, r).len() == records.len() + 1,
{
    lemma_insertion_point_bounds(records, r.priority);
    let k = insertion_point(records, r.priority);
    let s = insert_by_priority(records, r);
    if sorted_by_priority(records) {
        assert forall|a: int, b: int| 0 <= a < b < s.len() implies s[a].priority <= s[b].priority by {
            if b < k {
            } else if b == k {
            } else if a < k {
                assert(s[b] == records[b - 1]);
            } else if a == k {
                assert(s[b] == records[b - 1]);
            } else {
                assert(s[a] == records[a - 1]);
                assert(s[b] == records[b - 1]);
            }
        }
    }
}

proof fn lemma_plan_indices(records: Seq<SystemRecord>, subs: Seq<(u32, u32)>, n: int, k: int)
    requires
        0 <= n <= records.len(),
        0 <= k < plan(records, subs, n).len(),
    ensures
        (plan(records, subs, n)[k].0 as int) < n,
    decreases n,
{
    if n > 0 {
        let head = plan(records, subs, n - 1);
        if k < head.len() {
            lemma_plan_indices(records, subs, n - 1, k);
        }
    }
}

} // verus!
