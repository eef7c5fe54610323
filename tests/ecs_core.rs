use std::cell::RefCell;
use std::rc::Rc;

use ecs_runtime::collision_system::CollisionSystem;
use ecs_runtime::components::{
    CameraData, CollisionData, PlayerData, Position, RenderData, Transform, Velocity,
};
use ecs_runtime::entity::Entity;
use ecs_runtime::entity_manager::EntityManager;
use ecs_runtime::movement_system::MovementSystem;
use ecs_runtime::system::System;

/// A system that records, in a shared log, each (priority, entity) it runs for.
struct Probe {
    priority: u32,
    key: u32,
    log: Rc<RefCell<Vec<(u32, u32)>>>,
}

impl System for Probe {
    fn update(&mut self, _entity_manager: &mut EntityManager<Probe>, entity_id: u32) {
        self.log.borrow_mut().push((self.priority, entity_id));
    }

    fn priority(&self) -> u32 {
        self.priority
    }

    fn system_type(&self) -> u32 {
        self.key
    }

    // The three below are read only by the verifier, which never sees this impl.
    fn spec_priority(&self) -> u32 {
        self.priority
    }

    fn spec_system_type(&self) -> u32 {
        self.key
    }

    fn updated(self, _: EntityManager<Probe>, _: u32, _: Probe, _: EntityManager<Probe>) -> bool {
        true
    }
}

fn probe(priority: u32, key: u32, log: &Rc<RefCell<Vec<(u32, u32)>>>) -> Probe {
    Probe { priority, key, log: Rc::clone(log) }
}

fn transform(x: i32, y: i32, dx: i32, dy: i32) -> Transform {
    Transform {
        position: Position::new(x, y, 0),
        velocity: Velocity { delta_x: dx, delta_y: dy },
    }
}

#[test]
fn created_ids_start_at_zero_and_increase() {
    let mut em: EntityManager<Probe> = EntityManager::new();
    let ids: Vec<u32> = (0..5).map(|_| em.create_entity().id).collect();
    assert_eq!(ids, vec![0, 1, 2, 3, 4]);
}

#[test]
fn component_reads_back_after_add() {
    let mut em: EntityManager<Probe> = EntityManager::new();
    let e = em.create_entity();
    assert!(em.get_component::<RenderData>(&e).is_none());
    let look = RenderData { size: 10, r: 1, g: 2, b: 3 };
    em.add_component(&e, look);
    assert_eq!(em.get_component::<RenderData>(&e), Some(&look));
    assert!(em.get_component::<Transform>(&e).is_none());
}

#[test]
fn component_of_unused_type_is_absent() {
    let mut em: EntityManager<Probe> = EntityManager::new();
    let a = em.create_entity();
    let b = em.create_entity();
    em.add_component(&a, CollisionData);
    assert!(em.get_component::<CollisionData>(&b).is_none());
    assert!(em.get_component::<CameraData>(&a).is_none());
    assert!(em.query_entities::<CameraData>().is_empty());
}

#[test]
fn adding_again_overwrites() {
    let mut em: EntityManager<Probe> = EntityManager::new();
    let e = em.create_entity();
    em.add_component(&e, transform(1, 2, 0, 0));
    em.add_component(&e, transform(7, 8, 9, 10));
    assert_eq!(em.get_component::<Transform>(&e), Some(&transform(7, 8, 9, 10)));
    assert_eq!(em.query_entities::<Transform>().len(), 1);
}

#[test]
fn mutable_access_changes_stored_value() {
    let mut em: EntityManager<Probe> = EntityManager::new();
    let e = em.create_entity();
    em.add_component(&e, transform(0, 0, 0, 0));
    if let Some(t) = em.get_component_mut::<Transform>(&e) {
        t.velocity.set_direct(4, -4);
    }
    assert_eq!(em.get_component::<Transform>(&e).unwrap().velocity, Velocity { delta_x: 4, delta_y: -4 });
    assert!(em.get_component_mut::<PlayerData>(&e).is_none());
}

#[test]
fn query_lists_exactly_the_holders() {
    let mut em: EntityManager<Probe> = EntityManager::new();
    let es: Vec<Entity> = (0..4).map(|_| em.create_entity()).collect();
    em.add_component(&es[3], PlayerData::new());
    em.add_component(&es[1], PlayerData::new());
    em.add_component(&es[2], CollisionData);
    let found: Vec<u32> = em.query_entities::<PlayerData>().iter().map(|e| e.id).collect();
    assert_eq!(found, vec![1, 3]);
    for e in &es {
        let listed = found.contains(&e.id);
        assert_eq!(listed, em.get_component::<PlayerData>(e).is_some());
    }
}

#[test]
fn query_skips_entities_that_are_not_live() {
    let mut em: EntityManager<Probe> = EntityManager::new();
    let live = em.create_entity();
    let stray = Entity { id: 42 };
    em.add_component(&live, CollisionData);
    em.add_component(&stray, CollisionData);
    assert!(em.get_component::<CollisionData>(&stray).is_some());
    let found: Vec<u32> = em.query_entities::<CollisionData>().iter().map(|e| e.id).collect();
    assert_eq!(found, vec![0]);
}

#[test]
fn single_entity_counts_holders() {
    let mut em: EntityManager<Probe> = EntityManager::new();
    assert_eq!(em.single_entity::<PlayerData>(), Err(0));
    let a = em.create_entity();
    em.add_component(&a, PlayerData::new());
    assert_eq!(em.single_entity::<PlayerData>(), Ok(a));
    let b = em.create_entity();
    em.add_component(&b, PlayerData::new());
    assert_eq!(em.single_entity::<PlayerData>(), Err(2));
}

fn run_order(priorities: &[u32]) -> Vec<u32> {
    let log = Rc::new(RefCell::new(Vec::new()));
    let mut em: EntityManager<Probe> = EntityManager::new();
    let e = em.create_entity();
    for (k, p) in priorities.iter().enumerate() {
        em.add_system(probe(*p, k as u32, &log));
        em.register_entity_to_system(k as u32, &e);
    }
    em.update();
    let order: Vec<u32> = log.borrow().iter().map(|(p, _)| *p).collect();
    order
}

#[test]
fn systems_run_in_ascending_priority() {
    assert_eq!(run_order(&[100, 1, 50]), vec![1, 50, 100]);
    assert_eq!(run_order(&[1, 50, 100]), vec![1, 50, 100]);
    assert_eq!(run_order(&[50, 100, 1]), vec![1, 50, 100]);
    assert_eq!(run_order(&[100, 50, 1]), vec![1, 50, 100]);
}

#[test]
fn equal_priorities_keep_insertion_order() {
    let log = Rc::new(RefCell::new(Vec::new()));
    let mut em: EntityManager<Probe> = EntityManager::new();
    let first = em.create_entity();
    let second = em.create_entity();
    let third = em.create_entity();
    em.add_system(probe(5, 1, &log));
    em.add_system(probe(5, 2, &log));
    em.add_system(probe(1, 3, &log));
    em.register_entity_to_system(2, &second);
    em.register_entity_to_system(1, &first);
    em.register_entity_to_system(3, &third);
    em.update();
    assert_eq!(*log.borrow(), vec![(1, 2), (5, 0), (5, 1)]);
}

#[test]
fn order_is_the_same_every_tick() {
    let log = Rc::new(RefCell::new(Vec::new()));
    let mut em: EntityManager<Probe> = EntityManager::new();
    let e = em.create_entity();
    for (k, p) in [100u32, 1, 50].iter().enumerate() {
        em.add_system(probe(*p, k as u32, &log));
        em.register_entity_to_system(k as u32, &e);
    }
    em.update();
    let first: Vec<(u32, u32)> = log.borrow().clone();
    log.borrow_mut().clear();
    em.update();
    assert_eq!(*log.borrow(), first);
    assert_eq!(first, vec![(1, 0), (50, 0), (100, 0)]);
}

#[test]
fn system_without_subscribers_never_runs() {
    let log = Rc::new(RefCell::new(Vec::new()));
    let mut em: EntityManager<Probe> = EntityManager::new();
    let e = em.create_entity();
    em.add_system(probe(1, 7, &log));
    em.add_system(probe(2, 8, &log));
    em.register_entity_to_system(8, &e);
    em.update();
    em.update();
    assert_eq!(*log.borrow(), vec![(2, 0), (2, 0)]);
}

#[test]
fn system_runs_once_per_subscriber() {
    let log = Rc::new(RefCell::new(Vec::new()));
    let mut em: EntityManager<Probe> = EntityManager::new();
    let a = em.create_entity();
    let b = em.create_entity();
    em.add_system(probe(3, 1, &log));
    em.register_entity_to_system(1, &b);
    em.register_entity_to_system(1, &a);
    em.update();
    assert_eq!(*log.borrow(), vec![(3, 1), (3, 0)]);
}

#[test]
fn registering_twice_runs_once() {
    let log = Rc::new(RefCell::new(Vec::new()));
    let mut em: EntityManager<Probe> = EntityManager::new();
    let e = em.create_entity();
    em.add_system(probe(1, 4, &log));
    em.register_entity_to_system(4, &e);
    em.register_entity_to_system(4, &e);
    em.update();
    assert_eq!(*log.borrow(), vec![(1, 0)]);
}

#[test]
fn movement_covers_an_eighth_of_velocity() {
    let mut em: EntityManager<Probe> = EntityManager::new();
    let e = em.create_entity();
    em.add_component(&e, transform(0, 0, 8, 0));
    MovementSystem.update(&mut em, e.id);
    let t = em.get_component::<Transform>(&e).unwrap();
    assert_eq!(t.position.x(), 1);
    assert_eq!(t.position.y(), 0);
    assert_eq!(t.velocity, Velocity { delta_x: 8, delta_y: 0 });
}

#[test]
fn movement_rounds_toward_zero() {
    let mut em: EntityManager<Probe> = EntityManager::new();
    let e = em.create_entity();
    em.add_component(&e, transform(10, 10, -12, 17));
    MovementSystem.update(&mut em, e.id);
    let t = em.get_component::<Transform>(&e).unwrap();
    assert_eq!((t.position.x(), t.position.y()), (9, 12));
}

#[test]
fn movement_clamps_at_the_edge_of_the_range() {
    let mut em: EntityManager<Probe> = EntityManager::new();
    let e = em.create_entity();
    em.add_component(&e, transform(i32::MAX, i32::MIN, 800, -800));
    MovementSystem.update(&mut em, e.id);
    let t = em.get_component::<Transform>(&e).unwrap();
    assert_eq!((t.position.x(), t.position.y()), (i32::MAX, i32::MIN));
}

#[test]
fn movement_skips_entity_without_transform() {
    let mut em: EntityManager<Probe> = EntityManager::new();
    let e = em.create_entity();
    em.add_component(&e, CollisionData);
    MovementSystem.update(&mut em, e.id);
    assert!(em.get_component::<Transform>(&e).is_none());
}

fn boxed(em: &mut EntityManager<Probe>, x: i32, y: i32, dx: i32, dy: i32) -> Entity {
    let e = em.create_entity();
    em.add_component(&e, transform(x, y, dx, dy));
    em.add_component(&e, RenderData { size: 10, r: 0, g: 0, b: 0 });
    em.add_component(&e, CollisionData);
    e
}

#[test]
fn collision_pushes_back_from_left_edge() {
    let mut em: EntityManager<Probe> = EntityManager::new();
    let e = boxed(&mut em, -5, 100, -3, 0);
    CollisionSystem.update(&mut em, e.id);
    let v = em.get_component::<Transform>(&e).unwrap().velocity;
    assert!(v.delta_x >= 0);
    assert_eq!(v, Velocity { delta_x: 3, delta_y: 0 });
}

#[test]
fn collision_pushes_back_from_right_edge() {
    let mut em: EntityManager<Probe> = EntityManager::new();
    let e = boxed(&mut em, 795, 100, 4, 2);
    CollisionSystem.update(&mut em, e.id);
    let v = em.get_component::<Transform>(&e).unwrap().velocity;
    assert!(v.delta_x <= 0);
    assert_eq!(v, Velocity { delta_x: -4, delta_y: 2 });
}

#[test]
fn collision_pushes_back_from_top_and_bottom() {
    let mut em: EntityManager<Probe> = EntityManager::new();
    let top = boxed(&mut em, 100, -1, 0, -6);
    let bottom = boxed(&mut em, 100, 595, 0, 6);
    CollisionSystem.update(&mut em, top.id);
    assert_eq!(em.get_component::<Transform>(&top).unwrap().velocity.delta_y, 6);
    assert_eq!(em.get_component::<Transform>(&bottom).unwrap().velocity.delta_y, -6);
}

#[test]
fn collision_leaves_inner_and_unmarked_entities() {
    let mut em: EntityManager<Probe> = EntityManager::new();
    let inner = boxed(&mut em, 100, 100, -3, 5);
    let unmarked = em.create_entity();
    em.add_component(&unmarked, transform(-50, -50, -1, -1));
    em.add_component(&unmarked, RenderData { size: 10, r: 0, g: 0, b: 0 });
    CollisionSystem.update(&mut em, inner.id);
    assert_eq!(em.get_component::<Transform>(&inner).unwrap().velocity, Velocity { delta_x: -3, delta_y: 5 });
    assert_eq!(em.get_component::<Transform>(&unmarked).unwrap().velocity, Velocity { delta_x: -1, delta_y: -1 });
}

#[test]
fn collision_check_twice_equals_once() {
    let mut em: EntityManager<Probe> = EntityManager::new();
    let e = boxed(&mut em, -5, 700, 2, 9);
    CollisionSystem.update(&mut em, e.id);
    let once = em.get_component::<Transform>(&e).unwrap().velocity;
    CollisionSystem.update(&mut em, e.id);
    assert_eq!(em.get_component::<Transform>(&e).unwrap().velocity, once);
    assert_eq!(once, Velocity { delta_x: 2, delta_y: -9 });
}

#[test]
fn collision_clamps_smallest_velocity() {
    let mut em: EntityManager<Probe> = EntityManager::new();
    let e = boxed(&mut em, -5, 100, i32::MIN, 0);
    CollisionSystem.update(&mut em, e.id);
    assert_eq!(em.get_component::<Transform>(&e).unwrap().velocity.delta_x, i32::MAX);
}
