use vstd::prelude::*;

use crate::component::{Component, ComponentKind, ComponentValue};
use crate::component_store::ComponentStore;
use crate::entity::Entity;
use crate::system::System;
use crate::system_manager::SystemManager;

verus! {

/// The entities of `live`, in order, that hold something under `kind`.
pub open spec fn holders(
    live: Seq<Entity>,
    components: Map<(ComponentKind, u32), ComponentValue>,
    kind: ComponentKind,
) -> Seq<Entity>
    decreases live.len(),
{
    if live.len() == 0 {
        Seq::empty()
    } else {
        let rest = holders(live.drop_last(), components, kind);
        if components.contains_key((kind, live.last().id)) {
            rest.push(live.last())
        } else {
            rest
        }
    }
}

/// Every entity `holders` lists holds something under `kind`.
pub proof fn lemma_holders_hold(
    live: Seq<Entity>,
    components: Map<(ComponentKind, u32), ComponentValue>,
    kind: ComponentKind,
    i: int,
)
    requires
        0 <= i < holders(live, components, kind).len(),
    ensures
        components.contains_key((kind, holders(live, components, kind)[i].id)),
        live.contains(holders(live, components, kind)[i]),
    decreases live.len(),
{
    let rest = holders(live.drop_last(), components, kind);
    if i < rest.len() {
        lemma_holders_hold(live.drop_last(), components, kind, i);
        let e = rest[i];
        let j = choose|j: int| 0 <= j < live.drop_last().len() && live.drop_last()[j] == e;
        assert(live[j] == e);
    } else {
        assert(live[live.len() - 1] == live.last());
    }
}

/// `holders` lists exactly the live entities holding something under `kind`.
pub proof fn lemma_holders_contains(
    live: Seq<Entity>,
    components: Map<(ComponentKind, u32), ComponentValue>,
    kind: ComponentKind,
    e: Entity,
)
    ensures
        holders(live, components, kind).contains(e) <==> live.contains(e)
            && components.contains_key((kind, e.id)),
    decreases live.len(),
{
    if live.len() > 0 {
        let rest = live.drop_last();
        let last = live.last();
        lemma_holders_contains(rest, components, kind, e);
        let h = holders(rest, components, kind);
        let full = holders(live, components, kind);
        let take_last = components.contains_key((kind, last.id));
        assert(take_last ==> full == h.push(last));
        assert(!take_last ==> full == h);
        // membership in `live` splits into `rest` and the last entity
        assert(live.contains(e) <==> (rest.contains(e) || e == last)) by {
            if live.contains(e) && e != last {
                let j = choose|j: int| 0 <= j < live.len() && live[j] == e;
                assert(rest[j] == e);
            }
            if rest.contains(e) {
                let j = choose|j: int| 0 <= j < rest.len() && rest[j] == e;
                assert(live[j] == e);
            }
            if e == last {
                assert(live[live.len() - 1] == e);
            }
        }
        if take_last {
            assert(full.contains(e) <==> (h.contains(e) || e == last)) by {
                if full.contains(e) && e != last {
                    let j = choose|j: int| 0 <= j < full.len() && full[j] == e;
                    assert(h[j] == e);
                }
                if h.contains(e) {
                    let j = choose|j: int| 0 <= j < h.len() && h[j] == e;
                    assert(full[j] == e);
                }
                if e == last {
                    assert(full[h.len() as int] == e);
                }
            }
        }
    }
}

/// Over strictly increasing entities, `holders` is strictly increasing too.
pub proof fn lemma_holders_increasing(
    live: Seq<Entity>,
    components: Map<(ComponentKind, u32), ComponentValue>,
    kind: ComponentKind,
)
    requires
        forall|i: int, j: int| 0 <= i < j < live.len() ==> live[i].id < live[j].id,
    ensures
        ({
            let h = holders(live, components, kind);
            forall|i: int, j: int| 0 <= i < j < h.len() ==> h[i].id < h[j].id
        }),
    decreases live.len(),
{
    if live.len() > 0 {
        let rest = live.drop_last();
        lemma_holders_increasing(rest, components, kind);
        let h = holders(rest, components, kind);
        if components.contains_key((kind, live.last().id)) {
            let full = h.push(live.last());
            assert forall|i: int, j: int| 0 <= i < j < full.len() implies full[i].id < full[j].id by {
                if j == h.len() {
                    lemma_holders_hold(rest, components, kind, i);
                    let k = choose|k: int| 0 <= k < rest.len() && rest[k] == h[i];
                    assert(live[k] == h[i]);
                    assert(live[live.len() - 1] == live.last());
                } else {
                    assert(full[i] == h[i] && full[j] == h[j]);
                }
            }
        }
    }
}

/// Identifiers handed out by successive `create_entity` calls strictly
/// increase, so no two are equal. `befores[i]` and `afters[i]` are the manager
/// around the `i`-th call and `ids[i]` what it returned; between calls the next
/// identifier does not fall.
pub proof fn lemma_created_ids_increase<S: System>(
    befores: Seq<EntityManager<S>>,
    afters: Seq<EntityManager<S>>,
    ids: Seq<Entity>,
)
    requires
        befores.len() == ids.len(),
        afters.len() == ids.len(),
        forall|i: int|
            0 <= i < ids.len() ==> ids[i].id == befores[i].next_id() && afters[i].next_id()
                == befores[i].next_id() + 1,
        forall|i: int| 0 <= i < ids.len() - 1 ==> afters[i].next_id() <= befores[i + 1].next_id(),
    ensures
        forall|i: int, j: int| 0 <= i < j < ids.len() ==> ids[i].id < ids[j].id,
{
    assert forall|i: int, j: int| 0 <= i < j < ids.len() implies ids[i].id < ids[j].id by {
        lemma_ids_below(befores, afters, ids, i, j);
    }
}

proof fn lemma_ids_below<S: System>(
    befores: Seq<EntityManager<S>>,
    afters: Seq<EntityManager<S>>,
    ids: Seq<Entity>,
    i: int,
    j: int,
)
    requires
        befores.len() == ids.len(),
        afters.len() == ids.len(),
        forall|i: int|
            0 <= i < ids.len() ==> ids[i].id == befores[i].next_id() && afters[i].next_id()
                == befores[i].next_id() + 1,
        forall|i: int| 0 <= i < ids.len() - 1 ==> afters[i].next_id() <= befores[i + 1].next_id(),
        0 <= i < j < ids.len(),
    ensures
        ids[i].id < ids[j].id,
    decreases j - i,
{
    if j > i + 1 {
        lemma_ids_below(befores, afters, ids, i, j - 1);
    }
    assert(afters[j - 1].next_id() <= befores[j].next_id());
}

/// The single point of coordination: it allocates entities, owns their
/// components and owns the system manager that runs each tick.
pub struct EntityManager<S> {
    next_id: u32,
    entities: Vec<Entity>,
    components: ComponentStore,
    system_manager: SystemManager<S>,
}

impl<S> EntityManager<S> {
    /// The identifier the next created entity receives.
    pub closed spec fn next_id(self) -> u32 {
        self.next_id
    }

    /// The live entities, in order of creation.
    pub closed spec fn live(self) -> Seq<Entity> {
        self.entities@
    }

    /// The live entities have strictly increasing identifiers, all below the
    /// next one to be handed out.
    pub open spec fn wf(self) -> bool {
        &&& forall|i: int, j: int|
            0 <= i < j < self.live().len() ==> self.live()[i].id < self.live()[j].id
        &&& forall|i: int| 0 <= i < self.live().len() ==> self.live()[i].id < self.next_id()
    }
}

impl<S: System> EntityManager<S> {
    /// Every attached component, by (type tag, entity id).
    pub closed spec fn components(self) -> Map<(ComponentKind, u32), ComponentValue> {
        self.components@
    }

    /// The system manager.
    pub closed spec fn scheduler(self) -> SystemManager<S> {
        self.system_manager
    }

    /// Every attached component sits under its own type's tag.
    pub proof fn components_tagged(self, key: (ComponentKind, u32))
        requires
            self.components().contains_key(key),
        ensures
            self.components()[key].spec_kind() == key.0,
    {
        self.components.lemma_tags_match(key);
    }

    /// After `add_component(e, v)` a `T` of `e` reads back as `v`.
    pub proof fn lemma_get_after_add<T: Component>(before: Self, after: Self, e: Entity, v: T)
        requires
            after.components() == before.components().insert((T::type_kind(), e.id), v.erase()),
        ensures
            after.component::<T>(e.id) == Some(v),
    {
        v.lemma_erase();
    }

    /// A manager that holds no components has no `T` for any entity.
    pub proof fn lemma_nothing_before_add<T: Component>(m: Self, id: u32)
        requires
            m.components() == Map::<(ComponentKind, u32), ComponentValue>::empty(),
        ensures
            m.component::<T>(id) is None,
    {
    }

    /// Attaching a component under another type, or to another entity, leaves
    /// what a `T` of `id` reads as it was.
    pub proof fn lemma_add_elsewhere<T: Component, U: Component>(
        before: Self,
        after: Self,
        e: Entity,
        u: U,
        id: u32,
    )
        requires
            after.components() == before.components().insert((U::type_kind(), e.id), u.erase()),
            (U::type_kind(), e.id) != (T::type_kind(), id),
        ensures
            after.component::<T>(id) == before.component::<T>(id),
    {
    }

    /// Attaching `v1` and then `v2` of the same type to one entity leaves `v2`.
    pub proof fn lemma_add_overwrites<T: Component>(
        m0: Self,
        m1: Self,
        m2: Self,
        e: Entity,
        v1: T,
        v2: T,
    )
        requires
            m1.components() == m0.components().insert((T::type_kind(), e.id), v1.erase()),
            m2.components() == m1.components().insert((T::type_kind(), e.id), v2.erase()),
        ensures
            m2.component::<T>(e.id) == Some(v2),
    {
        v2.lemma_erase();
    }

    /// For a live entity `e`: `query_entities::<T>` lists `e` exactly when a
    /// `T` of `e` can be read.
    pub proof fn lemma_query_matches_get<T: Component>(m: Self, e: Entity)
        requires
            m.live().contains(e),
        ensures
            holders(m.live(), m.components(), T::type_kind()).contains(e) <==> m.component::<T>(
                e.id,
            ) is Some,
    {
        lemma_holders_contains(m.live(), m.components(), T::type_kind(), e);
        let key = (T::type_kind(), e.id);
        if m.components().contains_key(key) {
            m.components_tagged(key);
            T::lemma_recover(m.components()[key]);
        }
    }

    /// The `T` attached to entity `id`, if any.
    pub open spec fn component<T: Component>(self, id: u32) -> Option<T> {
        if self.components().contains_key((T::type_kind(), id)) {
            T::recover(self.components()[(T::type_kind(), id)])
        } else {
            None
        }
    }

    pub fn new() -> (m: EntityManager<S>)
        ensures
            m.wf(),
            m.next_id() == 0,
            m.live() == Seq::<Entity>::empty(),
            m.components() == Map::<(ComponentKind, u32), ComponentValue>::empty(),
            m.scheduler().records() == Seq::<crate::system_manager::SystemRecord>::empty(),
            m.scheduler().systems() == Seq::<S>::empty(),
            m.scheduler().subscriptions() == Seq::<(u32, u32)>::empty(),
    {
        EntityManager {
            next_id: 0,
            entities: Vec::new(),
            components: ComponentStore::new(),
            system_manager: SystemManager::new(),
        }
    }

    /// Allocates the next identifier and records the entity as live.
    pub fn create_entity(&mut self) -> (e: Entity)
        requires
            old(self).next_id() < u32::MAX,
        ensures
            e.id == old(self).next_id(),
            final(self).next_id() == old(self).next_id() + 1,
            final(self).live() == old(self).live().push(e),
            final(self).components() == old(self).components(),
            final(self).scheduler() == old(self).scheduler(),
            old(self).wf() ==> final(self).wf(),
    {
        let entity = Entity { id: self.next_id };
        self.next_id = self.next_id + 1;
        self.entities.push(entity);
        proof {
            if old(self).wf() {
                let n = old(self).live().len();
                assert forall|i: int| 0 <= i < n implies self.live()[i] == old(self).live()[i] by {}
                assert(self.live()[n as int] == entity);
            }
        }
        entity
    }

    /// Attaches `component` to `entity`, replacing any earlier `T` it had.
    pub fn add_component<T: Component>(&mut self, entity: &Entity, component: T)
        ensures
            final(self).components() == old(self).components().insert(
                (T::type_kind(), entity.id),
                component.erase(),
            ),
            final(self).next_id() == old(self).next_id(),
            final(self).live() == old(self).live(),
            final(self).scheduler() == old(self).scheduler(),
    {
        proof {
            component.lemma_erase();
        }
        self.components.insert(entity.id, component.into_value());
    }

    /// The `T` attached to `entity`, if any.
    pub fn get_component<T: Component>(&self, entity: &Entity) -> (r: Option<&T>)
        ensures
            match r {
                Some(c) => self.component::<T>(entity.id) == Some(*c),
                None => self.component::<T>(entity.id) is None,
            },
    {
        match self.components.get(T::kind(), entity.id) {
            Some(v) => {
                let r = T::downcast_ref(v);
                proof {
                    self.components.lemma_tags_match((T::type_kind(), entity.id));
                    T::lemma_recover(*v);
                }
                r
            },
            None => None,
        }
    }

    /// The `T` attached to `entity`, for changing in place.
    pub fn get_component_mut<T: Component>(&mut self, entity: &Entity) -> (r: Option<&mut T>)
        ensures
            match r {
                Some(c) => {
                    &&& old(self).component::<T>(entity.id) == Some(*c)
                    &&& final(self).components() == old(self).components().insert(
                        (T::type_kind(), entity.id),
                        (*final(c)).erase(),
                    )
                },
                None => {
                    &&& old(self).component::<T>(entity.id) is None
                    &&& final(self).components() == old(self).components()
                },
            },
            final(self).next_id() == old(self).next_id(),
            final(self).live() == old(self).live(),
            final(self).scheduler() == old(self).scheduler(),
    {
        proof {
            if self.components@.contains_key((T::type_kind(), entity.id)) {
                self.components.lemma_tags_match((T::type_kind(), entity.id));
                T::lemma_recover(self.components@[(T::type_kind(), entity.id)]);
            }
        }
        self.components.get_mut::<T>(entity.id)
    }

    /// Every live entity that has a `T`, in order of creation.
    pub fn query_entities<T: Component>(&self) -> (r: Vec<Entity>)
        ensures
            r@ == holders(self.live(), self.components(), T::type_kind()),
            self.wf() ==> forall|i: int, j: int| 0 <= i < j < r@.len() ==> r@[i].id < r@[j].id,
    {
        let kind = T::kind();
        let mut out: Vec<Entity> = Vec::new();
        let mut i: usize = 0;
        while i < self.entities.len()
            invariant
                i <= self.entities@.len(),
                out@ == holders(self.entities@.take(i as int), self.components@, kind),
            decreases self.entities@.len() - i,
        {
            let e = self.entities[i];
            proof {
                assert(self.entities@.take(i as int + 1).drop_last() == self.entities@.take(
                    i as int,
                ));
            }
            if self.components.contains(kind, e.id) {
                out.push(e);
            }
            i += 1;
        }
        proof {
            assert(self.entities@.take(i as int) == self.entities@);
            if self.wf() {
                lemma_holders_increasing(self.live(), self.components(), kind);
            }
        }
        out
    }

    /// The one live entity that has a `T`, or, when there is not exactly one,
    /// how many there are.
    pub fn single_entity<T: Component>(&self) -> (r: Result<Entity, usize>)
        ensures
            ({
                let h = holders(self.live(), self.components(), T::type_kind());
                &&& h.len() == 1 ==> r == Ok::<Entity, usize>(h[0])
                &&& h.len() != 1 ==> r == Err::<Entity, usize>(h.len() as usize)
            }),
    {
        let found = self.query_entities::<T>();
        if found.len() == 1 {
            Ok(found[0])
        } else {
            Err(found.len())
        }
    }

    /// Registers `system`, keeping the systems stably sorted by priority.
    pub fn add_system(&mut self, system: S)
        ensures
            final(self).scheduler().records() == crate::system_manager::insert_by_priority(
                old(self).scheduler().records(),
                crate::system_manager::SystemRecord {
                    priority: system.spec_priority(),
                    system_type: system.spec_system_type(),
                },
            ),
            final(self).scheduler().systems() == old(self).scheduler().systems().insert(
                crate::system_manager::insertion_point(
                    old(self).scheduler().records(),
                    system.spec_priority(),
                ),
                system,
            ),
            crate::system_manager::sorted_by_priority(old(self).scheduler().records())
                ==> crate::system_manager::sorted_by_priority(final(self).scheduler().records()),
            final(self).scheduler().subscriptions() == old(self).scheduler().subscriptions(),
            final(self).next_id() == old(self).next_id(),
            final(self).live() == old(self).live(),
            final(self).components() == old(self).components(),
    {
        self.system_manager.add_system(system);
    }

    /// Subscribes `entity` to the systems of type `system_type`.
    pub fn register_entity_to_system(&mut self, system_type: u32, entity: &Entity)
        ensures
            final(self).scheduler().subscriptions() == crate::system_manager::subscribed(
                old(self).scheduler().subscriptions(),
                system_type,
                entity.id,
            ),
            old(self).scheduler().subscriptions().no_duplicates()
                ==> final(self).scheduler().subscriptions().no_duplicates(),
            final(self).scheduler().records() == old(self).scheduler().records(),
            final(self).scheduler().systems() == old(self).scheduler().systems(),
            final(self).next_id() == old(self).next_id(),
            final(self).live() == old(self).live(),
            final(self).components() == old(self).components(),
    {
        self.system_manager.register_entity_to_system(system_type, entity.id);
    }

    /// Runs one tick: every system, in priority order, once for each entity
    /// subscribed to its type, exactly as the scheduler's `tick_plan` lists.
    ///
    /// While the systems run they are detached from this manager, which they
    /// see with no systems and no subscriptions; what they add or register
    /// during the tick is dropped when they are put back.
    pub fn update(&mut self)
        ensures
            exists|ss: Seq<Seq<S>>, ms: Seq<EntityManager<S>>|
                {
                    &&& crate::system_manager::tick_steps(old(self).scheduler().tick_plan(), ss, ms)
                    &&& ss[0] == old(self).scheduler().systems()
                    &&& ms[0].next_id() == old(self).next_id()
                    &&& ms[0].live() == old(self).live()
                    &&& ms[0].components() == old(self).components()
                    &&& ms[0].scheduler().systems() == Seq::<S>::empty()
                    &&& ms[0].scheduler().records() == Seq::<crate::system_manager::SystemRecord>::empty()
                    &&& ms[0].scheduler().subscriptions() == Seq::<(u32, u32)>::empty()
                    &&& ss.last() == final(self).scheduler().systems()
                    &&& ms.last().next_id() == final(self).next_id()
                    &&& ms.last().live() == final(self).live()
                    &&& ms.last().components() == final(self).components()
                },
            final(self).scheduler().records() == old(self).scheduler().records(),
            final(self).scheduler().subscriptions() == old(self).scheduler().subscriptions(),
            old(self).wf() ==> final(self).wf(),
            final(self).next_id() >= old(self).next_id(),
    {
        let mut systems = SystemManager::new();
        std::mem::swap(&mut systems, &mut self.system_manager);
        let ghost detached = *self;
        systems.update_systems(self);
        let ghost ran = *self;
        std::mem::swap(&mut systems, &mut self.system_manager);
        proof {
            let (ss, ms) = choose|ss: Seq<Seq<S>>, ms: Seq<EntityManager<S>>|
                {
                    &&& crate::system_manager::tick_steps(old(self).scheduler().tick_plan(), ss, ms)
                    &&& ss[0] == old(self).scheduler().systems()
                    &&& ms[0] == detached
                    &&& ss.last() == self.scheduler().systems()
                    &&& ms.last() == ran
                };
            assert(ms[0].next_id() == old(self).next_id());
            assert(detached.live() == old(self).live());
            assert(ran.live() == self.live() && ran.next_id() == self.next_id());
        }
    }
}

} // verus!
