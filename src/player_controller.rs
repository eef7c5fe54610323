use vstd::prelude::*;

use crate::component::Component;
use crate::components::{Transform, Velocity};
use crate::entity::Entity;
use crate::entity_manager::EntityManager;
use crate::system::{System, PLAYER_CONTROLLER, PLAYER_CONTROLLER_PRIORITY};

verus! {

/// The speed a held movement key gives, per axis.
pub const PLAYER_SPEED: i32 = 8;

/// How far a held turning key turns the player per tick, in hundredths of a degree.
pub const ROTATION_STEP: i32 = 57;

/// Which controls are held during this tick.
#[derive(Clone, Copy, Debug, PartialEq, Eq, Structural)]
pub struct InputState {
    /// Move up the screen (W).
    pub up: bool,
    /// Move left (A).
    pub left: bool,
    /// Move down the screen (S).
    pub down: bool,
    /// Move right (D).
    pub right: bool,
    /// Turn one way (Q).
    pub turn_left: bool,
    /// Turn the other way (E).
    pub turn_right: bool,
}

/// `PLAYER_SPEED` when `held`, else nothing.
pub open spec fn push(held: bool) -> int {
    if held {
        PLAYER_SPEED as int
    } else {
        0
    }
}

/// The velocity the held movement keys ask for; no key held means standing still.
pub open spec fn steered_velocity(input: InputState) -> Velocity {
    Velocity {
        delta_x: (push(input.right) - push(input.left)) as i32,
        delta_y: (push(input.down) - push(input.up)) as i32,
    }
}

/// The turn the held turning keys ask for, in hundredths of a degree.
pub open spec fn turn(input: InputState) -> int {
    (if input.turn_left {
        ROTATION_STEP as int
    } else {
        0
    }) - (if input.turn_right {
        ROTATION_STEP as int
    } else {
        0
    })
}

/// A transform after the controls of one tick.
pub open spec fn steered(t: Transform, input: InputState) -> Transform {
    Transform { position: t.position.spec_turned(turn(input)), velocity: steered_velocity(input) }
}

/// Sets the player's velocity, and turns it, from the held controls.
///
/// Movement is in screen directions, matching `MovementSystem`, which moves
/// along the x and y axes: W moves up, S down, A left and D right, each at
/// `PLAYER_SPEED`, and no movement key held means standing still. Q and E turn
/// the heading, which only the first-person view reads; steering along the
/// heading would need trigonometry, which this library does not hold.
#[derive(Clone, Copy, Debug, PartialEq, Eq, Structural)]
pub struct PlayerController;

impl PlayerController {
    /// Applies one tick of input to a transform.
    pub fn update_player_transform(transform: &mut Transform, input: &InputState)
        ensures
            *final(transform) == steered(*old(transform), *input),
    {
        transform.velocity.set_direct(0, 0);
        if input.up {
            transform.velocity.delta_y = transform.velocity.delta_y - PLAYER_SPEED;
        }
        if input.down {
            transform.velocity.delta_y = transform.velocity.delta_y + PLAYER_SPEED;
        }
        if input.left {
            transform.velocity.delta_x = transform.velocity.delta_x - PLAYER_SPEED;
        }
        if input.right {
            transform.velocity.delta_x = transform.velocity.delta_x + PLAYER_SPEED;
        }
        let mut delta: i32 = 0;
        if input.turn_left {
            delta = delta + ROTATION_STEP;
        }
        if input.turn_right {
            delta = delta - ROTATION_STEP;
        }
        transform.position.update_rotation(delta);
    }

    /// Steers entity `entity_id` from `input`, when it has a transform.
    pub fn update<S: System>(
        &mut self,
        entity_manager: &mut EntityManager<S>,
        entity_id: u32,
        input: &InputState,
    )
        ensures
            match old(entity_manager).component::<Transform>(entity_id) {
                Some(t) => final(entity_manager).components() == old(
                    entity_manager,
                ).components().insert((Transform::type_kind(), entity_id), steered(t, *input).erase()),
                None => final(entity_manager).components() == old(entity_manager).components(),
            },
            final(entity_manager).next_id() == old(entity_manager).next_id(),
            final(entity_manager).live() == old(entity_manager).live(),
            final(entity_manager).scheduler() == old(entity_manager).scheduler(),
    {
        if let Some(transform) = entity_manager.get_component_mut::<Transform>(
            &Entity { id: entity_id },
        ) {
            Self::update_player_transform(transform, input);
        }
    }

    pub fn priority(&self) -> (r: u32)
        ensures
            r == PLAYER_CONTROLLER_PRIORITY,
    {
        PLAYER_CONTROLLER_PRIORITY
    }

    pub fn system_type(&self) -> (r: u32)
        ensures
            r == PLAYER_CONTROLLER,
    {
        PLAYER_CONTROLLER
    }
}

} // verus!
