use vstd::prelude::*;

use crate::component::{Component, ComponentKind, ComponentValue};
use crate::components::{CameraData, PlayerData, Position, RenderData, Transform, Velocity};
use crate::entity::Entity;
use crate::entity_manager::EntityManager;
use crate::system::{System, MOVEMENT_SYSTEM, PLAYER_CONTROLLER, PLAYER_LOOK, WORLD_SYSTEM};
use crate::system_manager::{sorted_by_priority, subscribed};
use crate::world_data::{border_or_center, WorldData};

verus! {

/// Where the player starts, in pixels.
pub const PLAYER_START_X: i32 = 100;

pub const PLAYER_START_Y: i32 = 100;

/// The side of the player's square, in pixels.
pub const PLAYER_SIZE: u32 = 10;

/// The number of cells along each side of the level's grid.
pub const WORLD_TILES: u32 = 20;

/// How the player looks: a pale yellow square.
pub open spec fn player_look() -> RenderData {
    RenderData { size: PLAYER_SIZE, r: 252, g: 252, b: 127 }
}

/// Where the player starts: at rest, facing along the x axis.
pub open spec fn player_start() -> Transform {
    Transform {
        position: Position::spec_new(PLAYER_START_X, PLAYER_START_Y, 0),
        velocity: Velocity { delta_x: 0, delta_y: 0 },
    }
}

/// The player: an entity to steer, move and look through.
pub struct Player;

impl Player {
    /// Creates the player with its look, transform, player data and camera,
    /// and subscribes it to movement, control and the first-person view.
    pub fn spawn<S: System>(entity_manager: &mut EntityManager<S>) -> (e: Entity)
        requires
            old(entity_manager).next_id() < u32::MAX,
        ensures
            e.id == old(entity_manager).next_id(),
            final(entity_manager).next_id() == old(entity_manager).next_id() + 1,
            final(entity_manager).live() == old(entity_manager).live().push(e),
            final(entity_manager).components() == old(entity_manager).components().insert(
                (ComponentKind::Render, e.id),
                ComponentValue::Render(player_look()),
            ).insert((ComponentKind::Transform, e.id), ComponentValue::Transform(player_start())).insert(
                (ComponentKind::Player, e.id),
                ComponentValue::Player(PlayerData::new_spec()),
            ).insert((ComponentKind::Camera, e.id), ComponentValue::Camera(CameraData { fov: 60 })),
            final(entity_manager).scheduler().subscriptions() == subscribed(
                subscribed(
                    subscribed(old(entity_manager).scheduler().subscriptions(), MOVEMENT_SYSTEM, e.id),
                    PLAYER_CONTROLLER,
                    e.id,
                ),
                PLAYER_LOOK,
                e.id,
            ),
            final(entity_manager).scheduler().records() == old(entity_manager).scheduler().records(),
    {
        let player = entity_manager.create_entity();
        entity_manager.add_component(
            &player,
            RenderData { size: PLAYER_SIZE, r: 252, g: 252, b: 127 },
        );
        let position = Position::new(PLAYER_START_X, PLAYER_START_Y, 0);
        entity_manager.add_component(
            &player,
            Transform { position, velocity: Velocity { delta_x: 0, delta_y: 0 } },
        );
        entity_manager.add_component(&player, PlayerData::new());
        entity_manager.add_component(&player, CameraData::new());
        entity_manager.register_entity_to_system(MOVEMENT_SYSTEM, &player);
        entity_manager.register_entity_to_system(PLAYER_CONTROLLER, &player);
        entity_manager.register_entity_to_system(PLAYER_LOOK, &player);
        player
    }
}

/// The level's world: a walled grid sized to the window.
pub struct TestWorld;

impl TestWorld {
    /// Creates the world entity, holding a grid of `WORLD_TILES` cells a side
    /// that fits a `window_width` by `window_height` window.
    pub fn spawn<S: System>(
        entity_manager: &mut EntityManager<S>,
        window_width: u32,
        window_height: u32,
    ) -> (e: Entity)
        requires
            old(entity_manager).next_id() < u32::MAX,
        ensures
            e.id == old(entity_manager).next_id(),
            final(entity_manager).next_id() == old(entity_manager).next_id() + 1,
            final(entity_manager).live() == old(entity_manager).live().push(e),
            final(entity_manager).scheduler() == old(entity_manager).scheduler(),
            final(entity_manager).components().dom() == old(entity_manager).components().dom().insert(
                (ComponentKind::World, e.id),
            ),
            forall|key: (ComponentKind, u32)|
                key != (ComponentKind::World, e.id) && old(entity_manager).components().contains_key(key)
                    ==> #[trigger] final(entity_manager).components()[key] == old(
                    entity_manager,
                ).components()[key],
            ({
                let w = final(entity_manager).component::<WorldData>(e.id);
                &&& w is Some
                &&& w.unwrap().well_formed()
                &&& w.unwrap().world_size == WORLD_TILES
                &&& w.unwrap().cell_size == (if window_width <= window_height {
                    window_width
                } else {
                    window_height
                }) / WORLD_TILES
                &&& forall|x: int, y: int|
                    0 <= x < WORLD_TILES && 0 <= y < WORLD_TILES ==> #[trigger] w.unwrap().wall_at(x, y)
                        == border_or_center(WORLD_TILES as int, x, y)
            }),
    {
        let world = entity_manager.create_entity();
        let data = WorldData::new(WORLD_TILES, window_width, window_height);
        proof {
            data.lemma_erase();
        }
        entity_manager.add_component(&world, data);
        world
    }
}

/// Assembles the level.
pub struct Level;

impl Level {
    /// Adds `systems`, then creates the player (as `Player::spawn` does) and
    /// the world (as `TestWorld::spawn` does) and subscribes the world to the
    /// wall renderer. Returns the player and the world.
    pub fn load<S: System>(
        entity_manager: &mut EntityManager<S>,
        systems: Vec<S>,
        window_width: u32,
        window_height: u32,
    ) -> (r: (Entity, Entity))
        requires
            old(entity_manager).next_id() < u32::MAX - 1,
        ensures
            r.0.id == old(entity_manager).next_id(),
            r.1.id == old(entity_manager).next_id() + 1,
            final(entity_manager).next_id() == old(entity_manager).next_id() + 2,
            final(entity_manager).live() == old(entity_manager).live().push(r.0).push(r.1),
            final(entity_manager).scheduler().records().len() == old(
                entity_manager,
            ).scheduler().records().len() + systems@.len(),
            sorted_by_priority(old(entity_manager).scheduler().records()) ==> sorted_by_priority(
                final(entity_manager).scheduler().records(),
            ),
            final(entity_manager).scheduler().subscriptions() == subscribed(
                subscribed(
                    subscribed(
                        subscribed(
                            old(entity_manager).scheduler().subscriptions(),
                            MOVEMENT_SYSTEM,
                            r.0.id,
                        ),
                        PLAYER_CONTROLLER,
                        r.0.id,
                    ),
                    PLAYER_LOOK,
                    r.0.id,
                ),
                WORLD_SYSTEM,
                r.1.id,
            ),
            final(entity_manager).component::<RenderData>(r.0.id) == Some(player_look()),
            final(entity_manager).component::<Transform>(r.0.id) == Some(player_start()),
            final(entity_manager).component::<PlayerData>(r.0.id) == Some(PlayerData::new_spec()),
            final(entity_manager).component::<CameraData>(r.0.id) == Some(CameraData { fov: 60 }),
            ({
                let w = final(entity_manager).component::<WorldData>(r.1.id);
                &&& w is Some
                &&& w.unwrap().well_formed()
                &&& w.unwrap().world_size == WORLD_TILES
                &&& w.unwrap().cell_size == (if window_width <= window_height {
                    window_width
                } else {
                    window_height
                }) / WORLD_TILES
                &&& forall|x: int, y: int|
                    0 <= x < WORLD_TILES && 0 <= y < WORLD_TILES ==> #[trigger] w.unwrap().wall_at(x, y)
                        == border_or_center(WORLD_TILES as int, x, y)
            }),
            final(entity_manager).components().dom() == old(entity_manager).components().dom().insert(
                (ComponentKind::Render, r.0.id),
            ).insert((ComponentKind::Transform, r.0.id)).insert((ComponentKind::Player, r.0.id)).insert(
                (ComponentKind::Camera, r.0.id),
            ).insert((ComponentKind::World, r.1.id)),
            forall|key: (ComponentKind, u32)|
                key.1 != r.0.id && key.1 != r.1.id && old(entity_manager).components().contains_key(key)
                    ==> #[trigger] final(entity_manager).components()[key] == old(
                    entity_manager,
                ).components()[key],
    {
        let mut systems = systems;
        let ghost total = systems@.len();
        let ghost start = entity_manager.scheduler().records().len();
        while systems.len() > 0
            invariant
                entity_manager.next_id() == old(entity_manager).next_id(),
                entity_manager.live() == old(entity_manager).live(),
                entity_manager.components() == old(entity_manager).components(),
                entity_manager.scheduler().subscriptions() == old(entity_manager).scheduler().subscriptions(),
                entity_manager.scheduler().records().len() + systems@.len() == start + total,
                start == old(entity_manager).scheduler().records().len(),
                sorted_by_priority(old(entity_manager).scheduler().records()) ==> sorted_by_priority(
                    entity_manager.scheduler().records(),
                ),
            decreases systems@.len(),
        {
            let system = systems.remove(0);
            let ghost before = entity_manager.scheduler().records();
            let ghost rec = crate::system_manager::SystemRecord {
                priority: system.spec_priority(),
                system_type: system.spec_system_type(),
            };
            entity_manager.add_system(system);
            proof {
                crate::system_manager::lemma_insert_len(before, rec);
            }
        }
        let player = Player::spawn(entity_manager);
        let ghost with_player = *entity_manager;
        proof {
            player_look().lemma_erase();
            player_start().lemma_erase();
            PlayerData::new_spec().lemma_erase();
            CameraData { fov: 60 }.lemma_erase();
        }
        let world = TestWorld::spawn(entity_manager, window_width, window_height);
        entity_manager.register_entity_to_system(WORLD_SYSTEM, &world);
        proof {
            assert(entity_manager.components().dom() =~= old(entity_manager).components().dom().insert(
                (ComponentKind::Render, player.id),
            ).insert((ComponentKind::Transform, player.id)).insert((ComponentKind::Player, player.id)).insert(
                (ComponentKind::Camera, player.id),
            ).insert((ComponentKind::World, world.id)));
            assert(with_player.component::<RenderData>(player.id) == Some(player_look()));
        }
        (player, world)
    }
}

} // verus!
