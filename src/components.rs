use vstd::prelude::*;

verus! {

/// One full turn, in hundredths of a degree.
pub const FULL_TURN: u32 = 36000;

/// The field of view, in degrees, that players and cameras start with.
pub const DEFAULT_FOV: i32 = 60;

/// Brings an angle given in hundredths of a degree into `[0, FULL_TURN)`.
pub open spec fn wrap_angle(r: int) -> int {
    r % (FULL_TURN as int)
}

/// `v` clamped into the range of `i32`.
pub open spec fn saturate(v: int) -> i32 {
    if v > i32::MAX {
        i32::MAX
    } else if v < i32::MIN {
        i32::MIN
    } else {
        v as i32
    }
}

/// `a + b`, clamped into the range of `i32`.
pub fn saturating_sum(a: i32, b: i32) -> (r: i32)
    ensures
        r == saturate(a + b),
{
    let s: i64 = a as i64 + b as i64;
    if s > i32::MAX as i64 {
        i32::MAX
    } else if s < i32::MIN as i64 {
        i32::MIN
    } else {
        s as i32
    }
}

/// Where an entity stands and which way it faces.
///
/// Coordinates are in pixels; the heading is in hundredths of a degree and
/// always lies in `[0, FULL_TURN)`.
#[derive(Clone, Copy, Debug, PartialEq, Eq)]
pub struct Position {
    x: i32,
    y: i32,
    rotation: u32,
}

impl Position {
    #[verifier::type_invariant]
    spec fn heading_in_range(self) -> bool {
        self.rotation < FULL_TURN
    }

    pub closed spec fn spec_x(self) -> i32 {
        self.x
    }

    pub closed spec fn spec_y(self) -> i32 {
        self.y
    }

    pub closed spec fn spec_rotation(self) -> u32 {
        self.rotation
    }

    /// The position `new(x, y, rotation)` makes.
    pub closed spec fn spec_new(x: i32, y: i32, rotation: i32) -> Position {
        Position { x, y, rotation: wrap_angle(rotation as int) as u32 }
    }

    /// This position moved by `(dx, dy)`, each coordinate clamped into range.
    pub closed spec fn spec_moved(self, dx: int, dy: int) -> Position {
        Position { x: saturate(self.x + dx), y: saturate(self.y + dy), rotation: self.rotation }
    }

    /// This position turned by `delta` hundredths of a degree.
    pub closed spec fn spec_turned(self, delta: int) -> Position {
        Position { x: self.x, y: self.y, rotation: wrap_angle(self.rotation + delta) as u32 }
    }

    /// What `spec_new`, `spec_moved` and `spec_turned` give, field by field.
    pub broadcast proof fn lemma_fields(self, x: i32, y: i32, rotation: i32, dx: int, dy: int, delta: int)
        ensures
            #[trigger] Position::spec_new(x, y, rotation).spec_x() == x,
            Position::spec_new(x, y, rotation).spec_y() == y,
            Position::spec_new(x, y, rotation).spec_rotation() as int == wrap_angle(rotation as int),
            #[trigger] self.spec_moved(dx, dy).spec_x() == saturate(self.spec_x() + dx),
            self.spec_moved(dx, dy).spec_y() == saturate(self.spec_y() + dy),
            self.spec_moved(dx, dy).spec_rotation() == self.spec_rotation(),
            #[trigger] self.spec_turned(delta).spec_x() == self.spec_x(),
            self.spec_turned(delta).spec_y() == self.spec_y(),
            self.spec_turned(delta).spec_rotation() as int == wrap_angle(self.spec_rotation() + delta),
    {
    }

    fn wrapped(r: i64) -> (w: u32)
        requires
            i32::MIN as i64 - FULL_TURN as i64 <= r <= i32::MAX as i64 + FULL_TURN as i64,
        ensures
            w as int == wrap_angle(r as int),
            w < FULL_TURN,
    {
        // Shift by a whole number of turns so that the remainder is taken of a
        // non-negative number.
        let turns: i64 = 60000;
        let shifted: i64 = r + turns * (FULL_TURN as i64);
        proof {
            vstd::arithmetic::div_mod::lemma_mod_multiples_vanish(
                turns as int,
                r as int,
                FULL_TURN as int,
            );
        }
        (shifted % (FULL_TURN as i64)) as u32
    }

    /// A position at `(x, y)` facing `rotation` (hundredths of a degree, any sign).
    pub fn new(x: i32, y: i32, rotation: i32) -> (p: Position)
        ensures
            p.spec_x() == x,
            p.spec_y() == y,
            p.spec_rotation() as int == wrap_angle(rotation as int),
            p == Position::spec_new(x, y, rotation),
    {
        Position { x, y, rotation: Self::wrapped(rotation as i64) }
    }

    /// Turns by `delta` hundredths of a degree, keeping the heading in range.
    pub fn update_rotation(&mut self, delta: i32)
        ensures
            final(self).spec_x() == old(self).spec_x(),
            final(self).spec_y() == old(self).spec_y(),
            final(self).spec_rotation() as int == wrap_angle(
                old(self).spec_rotation() + delta,
            ),
            *final(self) == old(self).spec_turned(delta as int),
    {
        proof {
            use_type_invariant(&*self);
        }
        self.rotation = Self::wrapped(self.rotation as i64 + delta as i64);
    }

    /// Moves by `(delta_x, delta_y)`, each coordinate clamped into range.
    pub fn modify_position(&mut self, delta_x: i32, delta_y: i32)
        ensures
            *final(self) == old(self).spec_moved(delta_x as int, delta_y as int),
            final(self).spec_x() == saturate(old(self).spec_x() + delta_x),
            final(self).spec_y() == saturate(old(self).spec_y() + delta_y),
            final(self).spec_rotation() == old(self).spec_rotation(),
    {
        proof {
            use_type_invariant(&*self);
        }
        self.x = saturating_sum(self.x, delta_x);
        self.y = saturating_sum(self.y, delta_y);
    }

    pub fn x(&self) -> (r: i32)
        ensures
            r == self.spec_x(),
    {
        self.x
    }

    pub fn y(&self) -> (r: i32)
        ensures
            r == self.spec_y(),
    {
        self.y
    }

    pub fn rotation(&self) -> (r: u32)
        ensures
            r == self.spec_rotation(),
            r < FULL_TURN,
    {
        proof {
            use_type_invariant(self);
        }
        self.rotation
    }

    pub fn set_x(&mut self, x: i32)
        ensures
            final(self).spec_x() == x,
            final(self).spec_y() == old(self).spec_y(),
            final(self).spec_rotation() == old(self).spec_rotation(),
    {
        proof {
            use_type_invariant(&*self);
        }
        self.x = x;
    }

    pub fn set_y(&mut self, y: i32)
        ensures
            final(self).spec_x() == old(self).spec_x(),
            final(self).spec_y() == y,
            final(self).spec_rotation() == old(self).spec_rotation(),
    {
        proof {
            use_type_invariant(&*self);
        }
        self.y = y;
    }

    /// Faces `rotation` (hundredths of a degree, any sign).
    pub fn set_rotation(&mut self, rotation: i32)
        ensures
            final(self).spec_x() == old(self).spec_x(),
            final(self).spec_y() == old(self).spec_y(),
            final(self).spec_rotation() as int == wrap_angle(rotation as int),
    {
        self.rotation = Self::wrapped(rotation as i64);
    }

    pub fn set_coords(&mut self, x: i32, y: i32)
        ensures
            final(self).spec_x() == x,
            final(self).spec_y() == y,
            final(self).spec_rotation() == old(self).spec_rotation(),
    {
        proof {
            use_type_invariant(&*self);
        }
        self.x = x;
        self.y = y;
    }

    /// The heading in whole degrees, in `[0, 360)`.
    pub fn rot_to_deg(&self) -> (d: u32)
        ensures
            d == self.spec_rotation() / 100,
            d < 360,
    {
        proof {
            use_type_invariant(self);
        }
        self.rotation / 100
    }
}

/// How far an entity moves per unit of time, in pixels.
#[derive(Clone, Copy, Debug, PartialEq, Eq, Structural)]
pub struct Velocity {
    pub delta_x: i32,
    pub delta_y: i32,
}

impl Velocity {
    pub fn set_direct(&mut self, delta_x: i32, delta_y: i32)
        ensures
            final(self).delta_x == delta_x,
            final(self).delta_y == delta_y,
    {
        self.delta_x = delta_x;
        self.delta_y = delta_y;
    }
}

/// Position and velocity together.
#[derive(Clone, Copy, Debug, PartialEq, Eq)]
pub struct Transform {
    pub position: Position,
    pub velocity: Velocity,
}

/// How an entity is drawn: a square of side `size` pixels in colour `(r, g, b)`.
#[derive(Clone, Copy, Debug, PartialEq, Eq, Structural)]
pub struct RenderData {
    pub size: u32,
    pub r: u8,
    pub g: u8,
    pub b: u8,
}

/// Marks the entity the player steers.
#[derive(Clone, Copy, Debug, PartialEq, Eq, Structural)]
pub struct PlayerData {
    fov: i32,
}

impl PlayerData {
    pub closed spec fn spec_fov(self) -> i32 {
        self.fov
    }

    /// The player data `new` makes.
    pub closed spec fn new_spec() -> PlayerData {
        PlayerData { fov: DEFAULT_FOV }
    }

    pub fn new() -> (p: PlayerData)
        ensures
            p.spec_fov() == DEFAULT_FOV,
            p == PlayerData::new_spec(),
    {
        PlayerData { fov: DEFAULT_FOV }
    }

    pub fn get_fov(&self) -> (r: i32)
        ensures
            r == self.spec_fov(),
    {
        self.fov
    }
}

/// Marks an entity that is kept inside the screen bounds.
#[derive(Clone, Copy, Debug, PartialEq, Eq, Structural)]
pub struct CollisionData;

/// The view an entity looks through.
#[derive(Clone, Copy, Debug, PartialEq, Eq, Structural)]
pub struct CameraData {
    /// Field of view in degrees.
    pub fov: i32,
}

impl CameraData {
    pub fn new() -> (c: CameraData)
        ensures
            c.fov == DEFAULT_FOV,
    {
        CameraData { fov: DEFAULT_FOV }
    }
}

} // verus!
