use vstd::prelude::*;

use crate::component::Component;
use crate::components::{Position, Transform};
use crate::entity::Entity;
use crate::entity_manager::EntityManager;
use crate::system::{System, MOVEMENT_PRIORITY, MOVEMENT_SYSTEM};

verus! {

/// The share of its velocity an entity covers in one tick is one part in this many.
pub const STEPS_PER_UNIT: i32 = 8;

/// The distance covered in one tick at velocity `v`: `v / STEPS_PER_UNIT`,
/// rounded toward zero.
pub open spec fn tick_share(v: int) -> int {
    if v >= 0 {
        v / (STEPS_PER_UNIT as int)
    } else {
        -((-v) / (STEPS_PER_UNIT as int))
    }
}

/// A transform after one tick of movement: the position advanced by the tick's
/// share of the velocity, the velocity unchanged.
pub open spec fn moved(t: Transform) -> Transform {
    Transform {
        position: t.position.spec_moved(
            tick_share(t.velocity.delta_x as int),
            tick_share(t.velocity.delta_y as int),
        ),
        velocity: t.velocity,
    }
}

/// Integrates velocity into position.
#[derive(Clone, Copy, Debug, PartialEq, Eq, Structural)]
pub struct MovementSystem;

impl MovementSystem {
    fn share(v: i32) -> (r: i32)
        ensures
            r == tick_share(v as int),
    {
        if v >= 0 {
            v / STEPS_PER_UNIT
        } else {
            let m: i64 = -(v as i64);
            -((m / STEPS_PER_UNIT as i64) as i32)
        }
    }

    /// Advances one transform by one tick.
    pub fn update_entity_position(transform: &mut Transform)
        ensures
            *final(transform) == moved(*old(transform)),
    {
        let dx = Self::share(transform.velocity.delta_x);
        let dy = Self::share(transform.velocity.delta_y);
        transform.position.modify_position(dx, dy);
    }

    /// Moves entity `entity_id` by one tick, when it has a transform.
    pub fn update<S: System>(&mut self, entity_manager: &mut EntityManager<S>, entity_id: u32)
        ensures
            match old(entity_manager).component::<Transform>(entity_id) {
                Some(t) => final(entity_manager).components() == old(
                    entity_manager,
                ).components().insert((Transform::type_kind(), entity_id), moved(t).erase()),
                None => final(entity_manager).components() == old(entity_manager).components(),
            },
            final(entity_manager).next_id() == old(entity_manager).next_id(),
            final(entity_manager).live() == old(entity_manager).live(),
            final(entity_manager).scheduler() == old(entity_manager).scheduler(),
    {
        if let Some(transform) = entity_manager.get_component_mut::<Transform>(
            &Entity { id: entity_id },
        ) {
            Self::update_entity_position(transform);
        }
    }

    pub fn priority(&self) -> (r: u32)
        ensures
            r == MOVEMENT_PRIORITY,
    {
        MOVEMENT_PRIORITY
    }

    pub fn system_type(&self) -> (r: u32)
        ensures
            r == MOVEMENT_SYSTEM,
    {
        MOVEMENT_SYSTEM
    }
}

} // verus!
