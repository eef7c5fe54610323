use vstd::prelude::*;

use crate::entity_manager::EntityManager;

verus! {

/// The subscription key of the movement system.
pub const MOVEMENT_SYSTEM: u32 = 1;

/// The subscription key of the boundary-collision system.
pub const COLLISION_SYSTEM: u32 = 2;

/// The subscription key of the player controller.
pub const PLAYER_CONTROLLER: u32 = 3;

/// The subscription key of the entity renderer.
pub const RENDER_SYSTEM: u32 = 4;

/// The subscription key of the wall renderer.
pub const WORLD_SYSTEM: u32 = 5;

/// The subscription key of the first-person view.
pub const PLAYER_LOOK: u32 = 6;

/// Input runs first, then physics: controller, movement, collision.
pub const PLAYER_CONTROLLER_PRIORITY: u32 = 1;

pub const MOVEMENT_PRIORITY: u32 = 2;

pub const COLLISION_PRIORITY: u32 = 3;

/// Drawing follows the simulation: walls, then entities, then the view.
pub const WORLD_PRIORITY: u32 = 100;

pub const RENDER_PRIORITY: u32 = 110;

pub const PLAYER_LOOK_PRIORITY: u32 = 150;

/// A unit of per-tick behaviour.
///
/// A manager runs one type of system, `S`; a program with several kinds of
/// system makes `S` an enum of them and dispatches on it. Systems are ordered by
/// `priority` (lower runs earlier) and subscribed to entities under
/// `system_type`, which plays the part of the system's type identifier.
pub trait System: Sized {
    /// The ranking value `priority` reports.
    spec fn spec_priority(&self) -> u32;

    /// The key `system_type` reports.
    spec fn spec_system_type(&self) -> u32;

    /// Whether one `update` for entity `entity_id` may take this system from
    /// `self` to `after` and the manager from `entity_manager` to `entity_manager_after`.
    spec fn updated(
        self,
        entity_manager: EntityManager<Self>,
        entity_id: u32,
        after: Self,
        entity_manager_after: EntityManager<Self>,
    ) -> bool;

    /// One step of this system's behaviour for the entity `entity_id`.
    ///
    /// Must tolerate missing components by skipping the entity. Working
    /// through the manager's own methods keeps it well formed and never
    /// lowers the next identifier.
    fn update(&mut self, entity_manager: &mut EntityManager<Self>, entity_id: u32)
        ensures
            Self::updated(
                *old(self),
                *old(entity_manager),
                entity_id,
                *final(self),
                *final(entity_manager),
            ),
            old(entity_manager).wf() ==> final(entity_manager).wf(),
            final(entity_manager).next_id() >= old(entity_manager).next_id(),
    ;

    /// The ranking value; systems with lower values run earlier in a tick.
    fn priority(&self) -> (r: u32)
        ensures
            r == self.spec_priority(),
    ;

    /// The key that entities are subscribed to this system under.
    fn system_type(&self) -> (r: u32)
        ensures
            r == self.spec_system_type(),
    ;
}

} // verus!
