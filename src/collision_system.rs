use vstd::prelude::*;

use crate::component::{Component, ComponentKind};
use crate::components::{CollisionData, RenderData, Transform, Velocity};
use crate::entity::Entity;
use crate::entity_manager::{holders, EntityManager};
use crate::system::{System, COLLISION_PRIORITY, COLLISION_SYSTEM};

verus! {

/// The width of the area entities are kept in, in pixels.
pub const SCREEN_WIDTH: i64 = 800;

/// The height of the area entities are kept in, in pixels.
pub const SCREEN_HEIGHT: i64 = 600;

/// The magnitude of `v`, as an `i32` (the magnitude of `i32::MIN` is clamped).
pub open spec fn magnitude(v: i32) -> i32 {
    if v >= 0 {
        v
    } else if v == i32::MIN {
        i32::MAX
    } else {
        (-v) as i32
    }
}

/// One velocity component after the boundary check on one axis: heading
/// inward past the low bound, heading back past the high bound.
pub open spec fn bounce_axis(d: i32, low: int, size: int, bound: int) -> i32 {
    let d1 = if low < 0 {
        magnitude(d)
    } else {
        d
    };
    if low + size > bound {
        (-magnitude(d1)) as i32
    } else {
        d1
    }
}

/// A transform after the boundary check of a `size`-pixel box.
pub open spec fn bounced(t: Transform, size: u32) -> Transform {
    Transform {
        position: t.position,
        velocity: Velocity {
            delta_x: bounce_axis(
                t.velocity.delta_x,
                t.position.spec_x() as int,
                size as int,
                SCREEN_WIDTH as int,
            ),
            delta_y: bounce_axis(
                t.velocity.delta_y,
                t.position.spec_y() as int,
                size as int,
                SCREEN_HEIGHT as int,
            ),
        },
    }
}

/// Whether the boundary pass checks entity `id`: live, marked for collision,
/// with a transform and render data.
pub open spec fn checked<S: System>(m: EntityManager<S>, id: u32) -> bool {
    &&& holders(m.live(), m.components(), ComponentKind::Collision).contains(Entity { id })
    &&& m.component::<Transform>(id).is_some()
    &&& m.component::<RenderData>(id).is_some()
}

/// The transform of `id` after the boundary pass.
pub open spec fn transform_after<S: System>(m: EntityManager<S>, id: u32) -> Option<Transform> {
    if checked(m, id) {
        Some(bounced(m.component::<Transform>(id).unwrap(), m.component::<RenderData>(id).unwrap().size))
    } else {
        m.component::<Transform>(id)
    }
}

/// Keeps marked entities inside the screen by turning their velocity back
/// inward when their box crosses an edge.
#[derive(Clone, Copy, Debug, PartialEq, Eq, Structural)]
pub struct CollisionSystem;

impl CollisionSystem {
    fn magnitude(v: i32) -> (r: i32)
        ensures
            r == magnitude(v),
    {
        if v >= 0 {
            v
        } else if v == i32::MIN {
            i32::MAX
        } else {
            -v
        }
    }

    fn bounce_axis(d: i32, low: i32, size: u32, bound: i64) -> (r: i32)
        ensures
            r == bounce_axis(d, low as int, size as int, bound as int),
    {
        let mut d = d;
        if low < 0 {
            d = Self::magnitude(d);
        }
        if low as i64 + size as i64 > bound {
            d = -Self::magnitude(d);
        }
        d
    }

    /// Turns the velocity of a box at `(x, y)`, `size` pixels wide, back inside the screen.
    pub fn bounce(transform: &mut Transform, x: i32, y: i32, size: u32)
        requires
            x == old(transform).position.spec_x(),
            y == old(transform).position.spec_y(),
        ensures
            *final(transform) == bounced(*old(transform), size),
    {
        transform.velocity.delta_x = Self::bounce_axis(transform.velocity.delta_x, x, size, SCREEN_WIDTH);
        transform.velocity.delta_y = Self::bounce_axis(transform.velocity.delta_y, y, size, SCREEN_HEIGHT);
    }

    /// The boundary pass over every live entity marked for collision: first
    /// read every position and size, then adjust the velocities.
    pub fn update<S: System>(&mut self, entity_manager: &mut EntityManager<S>, _entity_id: u32)
        ensures
            final(entity_manager).components().dom() == old(entity_manager).components().dom(),
            forall|key: (ComponentKind, u32)|
                old(entity_manager).components().contains_key(key) && key.0 != ComponentKind::Transform
                    ==> #[trigger] final(entity_manager).components()[key] == old(
                    entity_manager,
                ).components()[key],
            forall|id: u32|
                #[trigger] final(entity_manager).component::<Transform>(id) == transform_after(
                    *old(entity_manager),
                    id,
                ),
            final(entity_manager).next_id() == old(entity_manager).next_id(),
            final(entity_manager).live() == old(entity_manager).live(),
            final(entity_manager).scheduler() == old(entity_manager).scheduler(),
    {
        let ghost m = *entity_manager;
        let es = entity_manager.query_entities::<CollisionData>();
        let mut boxes: Vec<(u32, i32, i32, u32)> = Vec::new();
        let mut i: usize = 0;
        while i < es.len()
            invariant
                *entity_manager == m,
                es@ == holders(m.live(), m.components(), ComponentKind::Collision),
                i <= es@.len(),
                forall|k: int|
                    0 <= k < boxes@.len() ==> {
                        let (id, x, y, size) = #[trigger] boxes@[k];
                        &&& checked(m, id)
                        &&& x == m.component::<Transform>(id).unwrap().position.spec_x()
                        &&& y == m.component::<Transform>(id).unwrap().position.spec_y()
                        &&& size == m.component::<RenderData>(id).unwrap().size
                    },
                forall|j: int|
                    0 <= j < i && #[trigger] checked(m, es@[j].id) ==> exists|k: int|
                        0 <= k < boxes@.len() && (#[trigger] boxes@[k]).0 == es@[j].id,
            decreases es@.len() - i,
        {
            let e = es[i];
            if let Some(t) = entity_manager.get_component::<Transform>(&e) {
                if let Some(look) = entity_manager.get_component::<RenderData>(&e) {
                    proof {
                        assert(es@.contains(Entity { id: e.id })) by {
                            assert(es@[i as int] == Entity { id: e.id });
                        }
                    }
                    let ghost earlier = boxes@;
                    boxes.push((e.id, t.position.x(), t.position.y(), look.size));
                    proof {
                        assert(boxes@[boxes@.len() - 1].0 == e.id);
                        assert forall|j: int|
                            0 <= j < i + 1 && #[trigger] checked(m, es@[j].id) implies exists|k: int|
                                0 <= k < boxes@.len() && (#[trigger] boxes@[k]).0 == es@[j].id by {
                            if j < i {
                                let k = choose|k: int| 0 <= k < earlier.len() && (#[trigger] earlier[k]).0 == es@[j].id;
                                assert(boxes@[k] == earlier[k]);
                            } else {
                                assert(boxes@[boxes@.len() - 1].0 == es@[j].id);
                            }
                        }
                    }
                }
            }
            i += 1;
        }
        let mut k: usize = 0;
        while k < boxes.len()
            invariant
                forall|n: int|
                    0 <= n < boxes@.len() ==> {
                        let (id, x, y, size) = #[trigger] boxes@[n];
                        &&& checked(m, id)
                        &&& x == m.component::<Transform>(id).unwrap().position.spec_x()
                        &&& y == m.component::<Transform>(id).unwrap().position.spec_y()
                        &&& size == m.component::<RenderData>(id).unwrap().size
                    },
                k <= boxes@.len(),
                entity_manager.components().dom() == m.components().dom(),
                forall|key: (ComponentKind, u32)|
                    m.components().contains_key(key) && key.0 != ComponentKind::Transform
                        ==> #[trigger] entity_manager.components()[key] == m.components()[key],
                forall|id: u32|
                    #[trigger] entity_manager.component::<Transform>(id) == if exists|n: int|
                        0 <= n < k && (#[trigger] boxes@[n]).0 == id {
                        transform_after(m, id)
                    } else {
                        m.component::<Transform>(id)
                    },
                entity_manager.next_id() == m.next_id(),
                entity_manager.live() == m.live(),
                entity_manager.scheduler() == m.scheduler(),
            decreases boxes@.len() - k,
        {
            let (id, x, y, size) = boxes[k];
            let ghost before = *entity_manager;
            proof {
                assert(boxes@[k as int].0 == id);
            }
            proof {
                let mt = m.component::<Transform>(id).unwrap();
                lemma_bounce_idempotent(mt, size);
                if exists|n: int| 0 <= n < k && (#[trigger] boxes@[n]).0 == id {
                    assert(before.component::<Transform>(id) == Some(bounced(mt, size)));
                } else {
                    assert(before.component::<Transform>(id) == Some(mt));
                }
            }
            if let Some(t) = entity_manager.get_component_mut::<Transform>(&Entity { id }) {
                Self::bounce(t, x, y, size);
            }
            proof {
                let mt = m.component::<Transform>(id).unwrap();
                assert(entity_manager.component::<Transform>(id) == Some(bounced(mt, size)));
                assert forall|j: u32|
                    #[trigger] entity_manager.component::<Transform>(j) == if exists|n: int|
                        0 <= n < k + 1 && (#[trigger] boxes@[n]).0 == j {
                        transform_after(m, j)
                    } else {
                        m.component::<Transform>(j)
                    } by {
                    if j == id {
                        assert(boxes@[k as int].0 == j);
                        lemma_bounce_idempotent(m.component::<Transform>(id).unwrap(), size);
                    } else {
                        assert(entity_manager.component::<Transform>(j) == before.component::<Transform>(j));
                        if exists|n: int| 0 <= n < k + 1 && (#[trigger] boxes@[n]).0 == j {
                            let n = choose|n: int| 0 <= n < k + 1 && (#[trigger] boxes@[n]).0 == j;
                            assert(n < k);
                        }
                    }
                }
                assert(entity_manager.components().dom() =~= m.components().dom());
            }
            k += 1;
        }
        proof {
            assert forall|id: u32|
                #[trigger] entity_manager.component::<Transform>(id) == transform_after(m, id) by {
                if checked(m, id) {
                    let j = choose|j: int| 0 <= j < es@.len() && es@[j] == Entity { id };
                    assert(checked(m, es@[j].id));
                    let n = choose|n: int| 0 <= n < boxes@.len() && (#[trigger] boxes@[n]).0 == es@[j].id;
                    assert(boxes@[n].0 == id);
                } else {
                    if exists|n: int| 0 <= n < k && (#[trigger] boxes@[n]).0 == id {
                        let n = choose|n: int| 0 <= n < k && (#[trigger] boxes@[n]).0 == id;
                        assert(checked(m, boxes@[n].0));
                    }
                }
            }
        }
    }

    pub fn priority(&self) -> (r: u32)
        ensures
            r == COLLISION_PRIORITY,
    {
        COLLISION_PRIORITY
    }

    pub fn system_type(&self) -> (r: u32)
        ensures
            r == COLLISION_SYSTEM,
    {
        COLLISION_SYSTEM
    }
}

proof fn lemma_bounce_idempotent(t: Transform, size: u32)
    ensures
        bounced(bounced(t, size), size) == bounced(t, size),
{
}

} // verus!
