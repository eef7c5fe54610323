use vstd::prelude::*;

pub mod collision_system;
pub mod component;
pub mod component_store;
pub mod components;
pub mod entity;
pub mod entity_manager;
pub mod movement_system;
pub mod player_controller;
pub mod prefabs;
pub mod render_system;
pub mod system;
pub mod system_manager;
pub mod window_config;
pub mod world_data;
pub mod world_system;

verus! {

} // verus!
