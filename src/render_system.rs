use vstd::prelude::*;

use crate::components::{RenderData, Transform};
use crate::entity::Entity;
use crate::entity_manager::EntityManager;
use crate::system::{System, RENDER_PRIORITY, RENDER_SYSTEM};

verus! {

/// A rectangle to draw, filled or as an outline, in colour `(r, g, b)`.
#[derive(Clone, Copy, Debug, PartialEq, Eq, Structural)]
pub struct DrawRect {
    pub x: i32,
    pub y: i32,
    pub width: u32,
    pub height: u32,
    pub r: u8,
    pub g: u8,
    pub b: u8,
    pub filled: bool,
}

/// The filled square that shows an entity with transform `t` and looks `look`.
pub open spec fn sprite(t: Transform, look: RenderData) -> DrawRect {
    DrawRect {
        x: t.position.spec_x(),
        y: t.position.spec_y(),
        width: look.size,
        height: look.size,
        r: look.r,
        g: look.g,
        b: look.b,
        filled: true,
    }
}

/// The squares of those of `es` that have both render data and a transform, in order.
pub open spec fn sprites<S: System>(m: EntityManager<S>, es: Seq<Entity>) -> Seq<DrawRect>
    decreases es.len(),
{
    if es.len() == 0 {
        Seq::empty()
    } else {
        let rest = sprites(m, es.drop_last());
        let id = es.last().id;
        match (m.component::<RenderData>(id), m.component::<Transform>(id)) {
            (Some(look), Some(t)) => rest.push(sprite(t, look)),
            _ => rest,
        }
    }
}

/// Draws every entity that has render data and a transform.
#[derive(Clone, Copy, Debug, PartialEq, Eq, Structural)]
pub struct RenderSystem;

impl RenderSystem {
    /// The squares to draw this tick, one per live entity with render data
    /// and a transform, in order of creation.
    pub fn draw_entities<S: System>(&self, entity_manager: &EntityManager<S>) -> (r: Vec<DrawRect>)
        ensures
            r@ == sprites(
                *entity_manager,
                crate::entity_manager::holders(
                    entity_manager.live(),
                    entity_manager.components(),
                    crate::component::ComponentKind::Render,
                ),
            ),
    {
        let es = entity_manager.query_entities::<RenderData>();
        let mut out: Vec<DrawRect> = Vec::new();
        let mut i: usize = 0;
        while i < es.len()
            invariant
                i <= es@.len(),
                out@ == sprites(*entity_manager, es@.take(i as int)),
            decreases es@.len() - i,
        {
            let e = es[i];
            proof {
                assert(es@.take(i as int + 1).drop_last() == es@.take(i as int));
            }
            if let Some(look) = entity_manager.get_component::<RenderData>(&e) {
                if let Some(t) = entity_manager.get_component::<Transform>(&e) {
                    out.push(
                        DrawRect {
                            x: t.position.x(),
                            y: t.position.y(),
                            width: look.size,
                            height: look.size,
                            r: look.r,
                            g: look.g,
                            b: look.b,
                            filled: true,
                        },
                    );
                }
            }
            i += 1;
        }
        proof {
            assert(es@.take(i as int) == es@);
        }
        out
    }

    pub fn priority(&self) -> (r: u32)
        ensures
            r == RENDER_PRIORITY,
    {
        RENDER_PRIORITY
    }

    pub fn system_type(&self) -> (r: u32)
        ensures
            r == RENDER_SYSTEM,
    {
        RENDER_SYSTEM
    }
}

} // verus!
