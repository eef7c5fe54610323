use vstd::prelude::*;

use crate::component::ComponentKind;
use crate::entity_manager::{holders, EntityManager};
use crate::render_system::DrawRect;
use crate::system::{System, WORLD_PRIORITY, WORLD_SYSTEM};
use crate::world_data::{grid_walls, Wall, WorldData};

verus! {

/// Why the walls cannot be drawn.
#[derive(Clone, Copy, Debug, PartialEq, Eq, Structural)]
pub enum WorldError {
    /// There must be exactly one entity with world data; this many were found.
    NotSingleton { found: usize },
    /// The world's grid is not `world_size` rows of `world_size` cells.
    Malformed,
}

/// `v` as a screen coordinate: clamped to `i32::MAX`.
pub open spec fn coordinate(v: int) -> i32 {
    if v > i32::MAX {
        i32::MAX
    } else {
        v as i32
    }
}

/// A wall cell drawn as a blue square with a black outline.
pub open spec fn wall_rects(w: Wall, cell: u32) -> Seq<DrawRect> {
    let x = coordinate(w.x * cell);
    let y = coordinate(w.y * cell);
    seq![
        DrawRect { x, y, width: cell, height: cell, r: 0, g: 0, b: 255, filled: true },
        DrawRect { x, y, width: cell, height: cell, r: 0, g: 0, b: 0, filled: false },
    ]
}

/// The rectangles of the walls `ws`, in order.
pub open spec fn walls_rects(ws: Seq<Wall>, cell: u32) -> Seq<DrawRect>
    decreases ws.len(),
{
    if ws.len() == 0 {
        Seq::empty()
    } else {
        walls_rects(ws.drop_last(), cell) + wall_rects(ws.last(), cell)
    }
}

/// What drawing the walls of the world held by the entities `worlds` gives.
pub open spec fn world_drawing(worlds: Seq<crate::entity::Entity>, world: Option<WorldData>) -> Result<
    Seq<DrawRect>,
    WorldError,
> {
    if worlds.len() != 1 {
        Err(WorldError::NotSingleton { found: worlds.len() as usize })
    } else if !world.unwrap().well_formed() {
        Err(WorldError::Malformed)
    } else {
        let w = world.unwrap();
        Ok(walls_rects(grid_walls(w.grid(), w.world_size as int, w.world_size as int), w.cell_size))
    }
}

/// Draws the walls of the one world in a top-down view.
#[derive(Clone, Copy, Debug, PartialEq, Eq, Structural)]
pub struct WorldSystem;

impl WorldSystem {
    fn screen_coordinate(cell_index: u32, cell_size: u32) -> (r: i32)
        ensures
            r == coordinate(cell_index * cell_size),
    {
        proof {
            let (a, b) = (cell_index as int, cell_size as int);
            assert(a * b <= u64::MAX) by (nonlinear_arith)
                requires
                    0 <= a <= u32::MAX,
                    0 <= b <= u32::MAX,
            ;
        }
        let v: u64 = cell_index as u64 * cell_size as u64;
        if v > i32::MAX as u64 {
            i32::MAX
        } else {
            v as i32
        }
    }

    /// The rectangles that draw `walls`, two per wall.
    pub fn draw_walls(&self, walls: &Vec<Wall>, cell_size: u32) -> (r: Vec<DrawRect>)
        ensures
            r@ == walls_rects(walls@, cell_size),
    {
        let mut out: Vec<DrawRect> = Vec::new();
        let mut i: usize = 0;
        while i < walls.len()
            invariant
                i <= walls@.len(),
                out@ == walls_rects(walls@.take(i as int), cell_size),
            decreases walls@.len() - i,
        {
            let w = walls[i];
            let x = Self::screen_coordinate(w.x, cell_size);
            let y = Self::screen_coordinate(w.y, cell_size);
            let fill = DrawRect { x, y, width: cell_size, height: cell_size, r: 0, g: 0, b: 255, filled: true };
            let outline = DrawRect { x, y, width: cell_size, height: cell_size, r: 0, g: 0, b: 0, filled: false };
            out.push(fill);
            out.push(outline);
            proof {
                assert(walls@.take(i as int + 1).drop_last() == walls@.take(i as int));
                assert(out@ =~= walls_rects(walls@.take(i as int + 1), cell_size));
            }
            i += 1;
        }
        proof {
            assert(walls@.take(i as int) == walls@);
        }
        out
    }

    /// The rectangles that draw the world's walls this tick, or why there are none.
    pub fn draw_world<S: System>(&self, entity_manager: &EntityManager<S>) -> (r: Result<Vec<DrawRect>, WorldError>)
        ensures
            ({
                let worlds = holders(entity_manager.live(), entity_manager.components(), ComponentKind::World);
                let expected = world_drawing(
                    worlds,
                    if worlds.len() == 1 {
                        entity_manager.component::<WorldData>(worlds[0].id)
                    } else {
                        None
                    },
                );
                match r {
                    Ok(v) => expected == Ok::<Seq<DrawRect>, WorldError>(v@),
                    Err(e) => expected == Err::<Seq<DrawRect>, WorldError>(e),
                }
            }),
    {
        let world_entity = match entity_manager.single_entity::<WorldData>() {
            Ok(e) => e,
            Err(found) => return Err(WorldError::NotSingleton { found }),
        };
        proof {
            let worlds = holders(entity_manager.live(), entity_manager.components(), ComponentKind::World);
            assert(worlds =~= seq![world_entity]);
            lemma_holder_has_component(*entity_manager, world_entity);
        }
        let world = match entity_manager.get_component::<WorldData>(&world_entity) {
            Some(w) => w,
            None => return Err(WorldError::Malformed),
        };
        if !world.check_shape() {
            return Err(WorldError::Malformed);
        }
        let walls = world.get_all_walls();
        Ok(self.draw_walls(&walls, world.get_cell_size()))
    }

    pub fn priority(&self) -> (r: u32)
        ensures
            r == WORLD_PRIORITY,
    {
        WORLD_PRIORITY
    }

    pub fn system_type(&self) -> (r: u32)
        ensures
            r == WORLD_SYSTEM,
    {
        WORLD_SYSTEM
    }
}

proof fn lemma_holder_has_component<S: System>(m: EntityManager<S>, e: crate::entity::Entity)
    requires
        holders(m.live(), m.components(), ComponentKind::World) == seq![e],
    ensures
        m.component::<WorldData>(e.id).is_some(),
{
    crate::entity_manager::lemma_holders_hold(m.live(), m.components(), ComponentKind::World, 0);
    m.components_tagged((ComponentKind::World, e.id));
    <WorldData as crate::component::Component>::lemma_recover(m.components()[(ComponentKind::World, e.id)]);
}

} // verus!
