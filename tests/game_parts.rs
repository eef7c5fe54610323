use ecs_runtime::components::{CameraData, PlayerData, Position, RenderData, Transform, Velocity};
use ecs_runtime::entity_manager::EntityManager;
use ecs_runtime::player_controller::{InputState, PlayerController};
use ecs_runtime::prefabs::{Level, Player, TestWorld};
use ecs_runtime::render_system::{DrawRect, RenderSystem};
use ecs_runtime::system::{
    System, MOVEMENT_SYSTEM, PLAYER_CONTROLLER, PLAYER_LOOK, WORLD_SYSTEM,
};
use ecs_runtime::window_config::SDLWindowManagerBuilder;
use ecs_runtime::world_data::{Wall, WorldData};
use ecs_runtime::world_system::{WorldError, WorldSystem};

/// A system that does nothing, for managers whose systems do not matter here.
struct Idle {
    priority: u32,
}

impl System for Idle {
    fn update(&mut self, _entity_manager: &mut EntityManager<Idle>, _entity_id: u32) {}

    fn priority(&self) -> u32 {
        self.priority
    }

    fn system_type(&self) -> u32 {
        0
    }

    // The three below are read only by the verifier, which never sees this impl.
    fn spec_priority(&self) -> u32 {
        self.priority
    }

    fn spec_system_type(&self) -> u32 {
        0
    }

    fn updated(self, _: EntityManager<Idle>, _: u32, _: Idle, _: EntityManager<Idle>) -> bool {
        true
    }
}

fn no_input() -> InputState {
    InputState { up: false, left: false, down: false, right: false, turn_left: false, turn_right: false }
}

#[test]
fn world_grid_has_border_and_center_walls() {
    let w = WorldData::new(20, 800, 600);
    assert_eq!(w.world_size, 20);
    assert_eq!(w.get_cell_size(), 30);
    assert_eq!(w.get_wall_array().len(), 20);
    assert!(w.is_wall(0, 5));
    assert!(w.is_wall(19, 5));
    assert!(w.is_wall(7, 0));
    assert!(w.is_wall(7, 19));
    assert!(w.is_wall(10, 10));
    assert!(!w.is_wall(1, 1));
    assert!(!w.is_wall(10, 9));
}

#[test]
fn outside_the_grid_counts_as_wall() {
    let w = WorldData::new(5, 100, 100);
    assert!(w.is_wall(-1, 2));
    assert!(w.is_wall(2, -1));
    assert!(w.is_wall(5, 2));
    assert!(w.is_wall(2, 5));
    assert!(!w.is_wall(1, 1));
}

#[test]
fn all_walls_row_by_row() {
    let w = WorldData::new(3, 90, 120);
    assert_eq!(w.get_cell_size(), 30);
    let walls = w.get_all_walls();
    // a 3 by 3 grid is all border
    assert_eq!(walls.len(), 9);
    assert_eq!(walls[0], Wall { x: 0, y: 0 });
    assert_eq!(walls[3], Wall { x: 0, y: 1 });
    assert_eq!(walls[8], Wall { x: 2, y: 2 });
    let big = WorldData::new(20, 800, 800);
    assert_eq!(big.get_all_walls().len(), 77);
    assert_eq!(big.get_cell_size(), 40);
}

#[test]
fn single_tile_world() {
    let w = WorldData::new(1, 7, 9);
    assert_eq!(w.get_cell_size(), 7);
    assert_eq!(w.get_all_walls(), vec![Wall { x: 0, y: 0 }]);
}

#[test]
fn malformed_world_is_reported() {
    let mut w = WorldData::new(4, 40, 40);
    assert!(w.check_shape());
    w.walls.pop();
    assert!(!w.check_shape());
    let mut em: EntityManager<Idle> = EntityManager::new();
    let e = em.create_entity();
    em.add_component(&e, w);
    assert_eq!(WorldSystem.draw_world(&em), Err(WorldError::Malformed));
}

#[test]
fn world_drawing_needs_exactly_one_world() {
    let mut em: EntityManager<Idle> = EntityManager::new();
    assert_eq!(WorldSystem.draw_world(&em), Err(WorldError::NotSingleton { found: 0 }));
    let a = em.create_entity();
    em.add_component(&a, WorldData::new(3, 30, 30));
    let rects = WorldSystem.draw_world(&em).unwrap();
    assert_eq!(rects.len(), 18);
    assert_eq!(rects[0], DrawRect { x: 0, y: 0, width: 10, height: 10, r: 0, g: 0, b: 255, filled: true });
    assert_eq!(rects[1], DrawRect { x: 0, y: 0, width: 10, height: 10, r: 0, g: 0, b: 0, filled: false });
    assert_eq!(rects[17], DrawRect { x: 20, y: 20, width: 10, height: 10, r: 0, g: 0, b: 0, filled: false });
    let b = em.create_entity();
    em.add_component(&b, WorldData::new(3, 30, 30));
    assert_eq!(WorldSystem.draw_world(&em), Err(WorldError::NotSingleton { found: 2 }));
}

#[test]
fn wall_coordinates_clamp() {
    let walls = vec![Wall { x: 3, y: 1 }, Wall { x: 70000, y: 0 }];
    let rects = WorldSystem.draw_walls(&walls, 40000);
    assert_eq!(rects.len(), 4);
    assert_eq!((rects[0].x, rects[0].y), (120000, 40000));
    assert_eq!((rects[2].x, rects[2].y), (i32::MAX, 0));
}

#[test]
fn render_draws_entities_with_look_and_transform() {
    let mut em: EntityManager<Idle> = EntityManager::new();
    let a = em.create_entity();
    let b = em.create_entity();
    let c = em.create_entity();
    em.add_component(&a, RenderData { size: 10, r: 1, g: 2, b: 3 });
    em.add_component(&a, Transform { position: Position::new(5, 6, 0), velocity: Velocity { delta_x: 0, delta_y: 0 } });
    em.add_component(&b, RenderData { size: 4, r: 0, g: 0, b: 0 });
    em.add_component(&c, Transform { position: Position::new(1, 1, 0), velocity: Velocity { delta_x: 0, delta_y: 0 } });
    let rects = RenderSystem.draw_entities(&em);
    assert_eq!(rects, vec![DrawRect { x: 5, y: 6, width: 10, height: 10, r: 1, g: 2, b: 3, filled: true }]);
}

#[test]
fn controller_sets_velocity_from_keys() {
    let mut em: EntityManager<Idle> = EntityManager::new();
    let p = em.create_entity();
    em.add_component(&p, Transform { position: Position::new(0, 0, 0), velocity: Velocity { delta_x: 3, delta_y: 3 } });
    let input = InputState { up: true, right: true, ..no_input() };
    PlayerController.update(&mut em, p.id, &input);
    let t = em.get_component::<Transform>(&p).unwrap();
    assert_eq!(t.velocity, Velocity { delta_x: 8, delta_y: -8 });
    PlayerController.update(&mut em, p.id, &no_input());
    let t = em.get_component::<Transform>(&p).unwrap();
    assert_eq!(t.velocity, Velocity { delta_x: 0, delta_y: 0 });
    let both = InputState { left: true, right: true, down: true, ..no_input() };
    PlayerController.update(&mut em, p.id, &both);
    assert_eq!(em.get_component::<Transform>(&p).unwrap().velocity, Velocity { delta_x: 0, delta_y: 8 });
}

#[test]
fn controller_turns_and_wraps() {
    let mut t = Transform { position: Position::new(0, 0, 10), velocity: Velocity { delta_x: 0, delta_y: 0 } };
    PlayerController::update_player_transform(&mut t, &InputState { turn_right: true, ..no_input() });
    assert_eq!(t.position.rotation(), 36000 - 47);
    PlayerController::update_player_transform(&mut t, &InputState { turn_left: true, ..no_input() });
    assert_eq!(t.position.rotation(), 10);
}

#[test]
fn position_heading_stays_in_range() {
    let mut p = Position::new(3, 4, -100);
    assert_eq!(p.rotation(), 35900);
    assert_eq!(p.rot_to_deg(), 359);
    p.update_rotation(200);
    assert_eq!(p.rotation(), 100);
    p.set_rotation(72000 + 4500);
    assert_eq!(p.rotation(), 4500);
    assert_eq!(p.rot_to_deg(), 45);
    p.set_rotation(i32::MIN);
    assert!(p.rotation() < 36000);
    assert_eq!(p.rotation() as i64, (i32::MIN as i64).rem_euclid(36000));
    p.set_coords(-7, 8);
    assert_eq!((p.x(), p.y()), (-7, 8));
    p.set_x(1);
    p.set_y(2);
    assert_eq!((p.x(), p.y(), p.rotation()), (1, 2, (i32::MIN as i64).rem_euclid(36000) as u32));
}

#[test]
fn player_and_camera_defaults() {
    assert_eq!(PlayerData::new().get_fov(), 60);
    assert_eq!(CameraData::new().fov, 60);
}

#[test]
fn player_spawn_builds_the_player() {
    let mut em: EntityManager<Idle> = EntityManager::new();
    let p = Player::spawn(&mut em);
    assert_eq!(p.id, 0);
    let t = em.get_component::<Transform>(&p).unwrap();
    assert_eq!((t.position.x(), t.position.y(), t.position.rotation()), (100, 100, 0));
    assert_eq!(t.velocity, Velocity { delta_x: 0, delta_y: 0 });
    assert_eq!(em.get_component::<RenderData>(&p), Some(&RenderData { size: 10, r: 252, g: 252, b: 127 }));
    assert!(em.get_component::<PlayerData>(&p).is_some());
    assert_eq!(em.get_component::<CameraData>(&p).unwrap().fov, 60);
}

#[test]
fn test_world_spawn_sizes_grid_to_window() {
    let mut em: EntityManager<Idle> = EntityManager::new();
    let w = TestWorld::spawn(&mut em, 800, 600);
    let data = em.get_component::<WorldData>(&w).unwrap();
    assert_eq!(data.world_size, 20);
    assert_eq!(data.get_cell_size(), 30);
}

#[test]
fn level_load_adds_systems_and_entities() {
    let mut em: EntityManager<Idle> = EntityManager::new();
    let (player, world) = Level::load(&mut em, vec![Idle { priority: 9 }, Idle { priority: 2 }], 640, 480);
    assert_eq!((player.id, world.id), (0, 1));
    assert_eq!(em.single_entity::<PlayerData>(), Ok(player));
    assert_eq!(em.single_entity::<WorldData>(), Ok(world));
    assert_eq!(WorldSystem.draw_world(&em).unwrap().len(), 2 * 77);
    let keys = [MOVEMENT_SYSTEM, PLAYER_CONTROLLER, PLAYER_LOOK, WORLD_SYSTEM];
    assert_eq!(keys.len(), 4);
    em.update();
}

#[test]
fn window_builder_defaults_and_setters() {
    let b = SDLWindowManagerBuilder::default();
    assert_eq!((b.width, b.height, b.title.as_str()), (800, 800, "SDL Window"));
    let b = b.width(1024).height(600).title("Game Window");
    assert_eq!((b.width, b.height, b.title.as_str()), (1024, 600, "Game Window"));
}
