use vstd::prelude::*;

use crate::components::{CameraData, CollisionData, PlayerData, RenderData, Transform};
use crate::world_data::WorldData;

verus! {

/// The tag that identifies a component type inside the store.
#[derive(Clone, Copy, Debug, PartialEq, Eq, Structural)]
pub enum ComponentKind {
    Transform,
    Render,
    Player,
    Collision,
    World,
    Camera,
}

/// A type-erased component: one variant per attachable data type.
#[derive(Debug)]
pub enum ComponentValue {
    Transform(Transform),
    Render(RenderData),
    Player(PlayerData),
    Collision(CollisionData),
    World(WorldData),
    Camera(CameraData),
}

impl ComponentValue {
    pub open spec fn spec_kind(&self) -> ComponentKind {
        match self {
            ComponentValue::Transform(_) => ComponentKind::Transform,
            ComponentValue::Render(_) => ComponentKind::Render,
            ComponentValue::Player(_) => ComponentKind::Player,
            ComponentValue::Collision(_) => ComponentKind::Collision,
            ComponentValue::World(_) => ComponentKind::World,
            ComponentValue::Camera(_) => ComponentKind::Camera,
        }
    }

    /// The tag of the type held.
    #[verifier::when_used_as_spec(spec_kind)]
    pub fn kind(&self) -> (r: ComponentKind)
        ensures
            r == self.spec_kind(),
    {
        match self {
            ComponentValue::Transform(_) => ComponentKind::Transform,
            ComponentValue::Render(_) => ComponentKind::Render,
            ComponentValue::Player(_) => ComponentKind::Player,
            ComponentValue::Collision(_) => ComponentKind::Collision,
            ComponentValue::World(_) => ComponentKind::World,
            ComponentValue::Camera(_) => ComponentKind::Camera,
        }
    }
}

/// Data that can be attached to an entity.
///
/// Each implementor names its tag, and converts to and from the erased
/// representation; a value read back as the type it was stored as is the
/// value that was stored.
pub trait Component: Sized {
    /// The tag under which values of this type are stored.
    spec fn type_kind() -> ComponentKind;

    /// The erased form of a value.
    spec fn erase(self) -> ComponentValue;

    /// The value held by an erased component, when it holds this type.
    spec fn recover(v: ComponentValue) -> Option<Self>;

    /// Erasing, then recovering, gives the value back, under this type's tag.
    proof fn lemma_erase(self)
        ensures
            Self::recover(self.erase()) == Some(self),
            self.erase().spec_kind() == Self::type_kind(),
    ;

    /// Recovery succeeds exactly on values under this type's tag, and undoes erasure.
    proof fn lemma_recover(v: ComponentValue)
        ensures
            Self::recover(v).is_some() <==> v.spec_kind() == Self::type_kind(),
            Self::recover(v).is_some() ==> Self::recover(v).unwrap().erase() == v,
    ;

    fn kind() -> (r: ComponentKind)
        ensures
            r == Self::type_kind(),
    ;

    fn into_value(self) -> (r: ComponentValue)
        ensures
            r == self.erase(),
    ;

    fn downcast_ref(v: &ComponentValue) -> (r: Option<&Self>)
        ensures
            match Self::recover(*v) {
                Some(c) => r.is_some() && *r.unwrap() == c,
                None => r.is_none(),
            },
    ;

    fn downcast_mut(v: &mut ComponentValue) -> (r: Option<&mut Self>)
        ensures
            match Self::recover(*old(v)) {
                Some(c) => r.is_some() && *r.unwrap() == c && *final(v) == (
                *final(r.unwrap())).erase(),
                None => r.is_none() && *final(v) == *old(v),
            },
    ;
}

impl Component for Transform {
    open spec fn type_kind() -> ComponentKind {
        ComponentKind::Transform
    }

    open spec fn erase(self) -> ComponentValue {
        ComponentValue::Transform(self)
    }

    open spec fn recover(v: ComponentValue) -> Option<Self> {
        match v {
            ComponentValue::Transform(c) => Some(c),
            _ => None,
        }
    }

    proof fn lemma_erase(self) {
    }

    proof fn lemma_recover(v: ComponentValue) {
    }

    fn kind() -> ComponentKind {
        ComponentKind::Transform
    }

    fn into_value(self) -> ComponentValue {
        ComponentValue::Transform(self)
    }

    fn downcast_ref(v: &ComponentValue) -> Option<&Self> {
        match v {
            ComponentValue::Transform(c) => Some(c),
            _ => None,
        }
    }

    fn downcast_mut(v: &mut ComponentValue) -> Option<&mut Self> {
        match v {
            ComponentValue::Transform(c) => Some(c),
            _ => None,
        }
    }
}

impl Component for RenderData {
    open spec fn type_kind() -> ComponentKind {
        ComponentKind::Render
    }

    open spec fn erase(self) -> ComponentValue {
        ComponentValue::Render(self)
    }

    open spec fn recover(v: ComponentValue) -> Option<Self> {
        match v {
            ComponentValue::Render(c) => Some(c),
            _ => None,
        }
    }

    proof fn lemma_erase(self) {
    }

    proof fn lemma_recover(v: ComponentValue) {
    }

    fn kind() -> ComponentKind {
        ComponentKind::Render
    }

    fn into_value(self) -> ComponentValue {
        ComponentValue::Render(self)
    }

    fn downcast_ref(v: &ComponentValue) -> Option<&Self> {
        match v {
            ComponentValue::Render(c) => Some(c),
            _ => None,
        }
    }

    fn downcast_mut(v: &mut ComponentValue) -> Option<&mut Self> {
        match v {
            ComponentValue::Render(c) => Some(c),
            _ => None,
        }
    }
}

impl Component for PlayerData {
    open spec fn type_kind() -> ComponentKind {
        ComponentKind::Player
    }

    open spec fn erase(self) -> ComponentValue {
        ComponentValue::Player(self)
    }

    open spec fn recover(v: ComponentValue) -> Option<Self> {
        match v {
            ComponentValue::Player(c) => Some(c),
            _ => None,
        }
    }

    proof fn lemma_erase(self) {
    }

    proof fn lemma_recover(v: ComponentValue) {
    }

    fn kind() -> ComponentKind {
        ComponentKind::Player
    }

    fn into_value(self) -> ComponentValue {
        ComponentValue::Player(self)
    }

    fn downcast_ref(v: &ComponentValue) -> Option<&Self> {
        match v {
            ComponentValue::Player(c) => Some(c),
            _ => None,
        }
    }

    fn downcast_mut(v: &mut ComponentValue) -> Option<&mut Self> {
        match v {
            ComponentValue::Player(c) => Some(c),
            _ => None,
        }
    }
}

impl Component for CollisionData {
    open spec fn type_kind() -> ComponentKind {
        ComponentKind::Collision
    }

    open spec fn erase(self) -> ComponentValue {
        ComponentValue::Collision(self)
    }

    open spec fn recover(v: ComponentValue) -> Option<Self> {
        match v {
            ComponentValue::Collision(c) => Some(c),
            _ => None,
        }
    }

    proof fn lemma_erase(self) {
    }

    proof fn lemma_recover(v: ComponentValue) {
    }

    fn kind() -> ComponentKind {
        ComponentKind::Collision
    }

    fn into_value(self) -> ComponentValue {
        ComponentValue::Collision(self)
    }

    fn downcast_ref(v: &ComponentValue) -> Option<&Self> {
        match v {
            ComponentValue::Collision(c) => Some(c),
            _ => None,
        }
    }

    fn downcast_mut(v: &mut ComponentValue) -> Option<&mut Self> {
        match v {
            ComponentValue::Collision(c) => Some(c),
            _ => None,
        }
    }
}

impl Component for WorldData {
    open spec fn type_kind() -> ComponentKind {
        ComponentKind::World
    }

    open spec fn erase(self) -> ComponentValue {
        ComponentValue::World(self)
    }

    open spec fn recover(v: ComponentValue) -> Option<Self> {
        match v {
            ComponentValue::World(c) => Some(c),
            _ => None,
        }
    }

    proof fn lemma_erase(self) {
    }

    proof fn lemma_recover(v: ComponentValue) {
    }

    fn kind() -> ComponentKind {
        ComponentKind::World
    }

    fn into_value(self) -> ComponentValue {
        ComponentValue::World(self)
    }

    fn downcast_ref(v: &ComponentValue) -> Option<&Self> {
        match v {
            ComponentValue::World(c) => Some(c),
            _ => None,
        }
    }

    fn downcast_mut(v: &mut ComponentValue) -> Option<&mut Self> {
        match v {
            ComponentValue::World(c) => Some(c),
            _ => None,
        }
    }
}

impl Component for CameraData {
    open spec fn type_kind() -> ComponentKind {
        ComponentKind::Camera
    }

    open spec fn erase(self) -> ComponentValue {
        ComponentValue::Camera(self)
    }

    open spec fn recover(v: ComponentValue) -> Option<Self> {
        match v {
            ComponentValue::Camera(c) => Some(c),
            _ => None,
        }
    }

    proof fn lemma_erase(self) {
    }

    proof fn lemma_recover(v: ComponentValue) {
    }

    fn kind() -> ComponentKind {
        ComponentKind::Camera
    }

    fn into_value(self) -> ComponentValue {
        ComponentValue::Camera(self)
    }

    fn downcast_ref(v: &ComponentValue) -> Option<&Self> {
        match v {
            ComponentValue::Camera(c) => Some(c),
            _ => None,
        }
    }

    fn downcast_mut(v: &mut ComponentValue) -> Option<&mut Self> {
        match v {
            ComponentValue::Camera(c) => Some(c),
            _ => None,
        }
    }
}

} // verus!
