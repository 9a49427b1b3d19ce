//! Surfaces as the movement rules see them: a handle, a facing, and the
//! class that the facing puts the surface in.
//!
//! A direction is a vector of whole numbers on any scale; only where it
//! points matters, never how long it is. A collaborator that holds unit
//! vectors with fractional components scales them up before rounding.

use vstd::prelude::*;
use crate::grid::magnitude;

verus! {

/// A direction in space. The zero vector stands for "no direction".
#[derive(Clone, Copy, Debug, PartialEq, Eq, Structural)]
pub struct Direction {
    pub x: i32,
    pub y: i32,
    pub z: i32,
}

/// What a surface is to a character that runs into it.
#[derive(Clone, Copy, Debug, PartialEq, Eq, Structural)]
pub enum SurfaceClass {
    Floor,
    Wall,
    Ceiling,
}

/// A static collidable triangle. The corners stay with the collaborator that
/// tests rays against them; `id` is the handle by which it finds them again.
#[derive(Clone, Copy, Debug, PartialEq, Eq, Structural)]
pub struct Surface {
    pub id: usize,
    pub normal: Direction,
    pub lower_y: Option<i64>,
    pub upper_y: Option<i64>,
}

impl Direction {
    /// The zero vector.
    pub open spec fn is_zero(self) -> bool {
        self.x == 0 && self.y == 0 && self.z == 0
    }

    /// The squared length.
    pub open spec fn norm_squared(self) -> int {
        self.x * self.x + self.y * self.y + self.z * self.z
    }

    /// Whether the vertical component of the unit vector in this direction is
    /// below three tenths: `y / |v| < 3 / 10`, squared and cross-multiplied.
    /// The zero vector counts as too flat.
    pub open spec fn below_walkable(self) -> bool {
        self.y <= 0 || 100 * (self.y * self.y) < 9 * self.norm_squared()
    }

    /// The class of a surface that faces this way. A facing whose largest
    /// component is the vertical one makes a floor when it points up and a
    /// ceiling when it points down; every other facing makes a wall.
    pub open spec fn class(self) -> SurfaceClass {
        if self.y != 0 && magnitude(self.y as int) >= magnitude(self.x as int) && magnitude(
            self.y as int,
        ) >= magnitude(self.z as int) {
            if self.y > 0 {
                SurfaceClass::Floor
            } else {
                SurfaceClass::Ceiling
            }
        } else {
            SurfaceClass::Wall
        }
    }

    /// Whether this is the zero vector.
    pub fn is_zero_vector(&self) -> (r: bool)
        ensures
            r == self.is_zero(),
    {
        self.x == 0 && self.y == 0 && self.z == 0
    }

    /// Whether ground that faces this way is too steep to stand on.
    pub fn too_steep(&self) -> (r: bool)
        ensures
            r == self.below_walkable(),
    {
        if self.y <= 0 {
            return true;
        }
        let x: i128 = self.x as i128;
        let y: i128 = self.y as i128;
        let z: i128 = self.z as i128;
        assert(0 <= x * x <= 0x4000_0000_0000_0000) by (nonlinear_arith)
            requires
                -0x8000_0000 <= x <= 0x7fff_ffff,
        ;
        assert(0 <= y * y <= 0x4000_0000_0000_0000) by (nonlinear_arith)
            requires
                -0x8000_0000 <= y <= 0x7fff_ffff,
        ;
        assert(0 <= z * z <= 0x4000_0000_0000_0000) by (nonlinear_arith)
            requires
                -0x8000_0000 <= z <= 0x7fff_ffff,
        ;
        let xx: i128 = x * x;
        let yy: i128 = y * y;
        let zz: i128 = z * z;
        100 * yy < 9 * (xx + yy + zz)
    }

    /// The class of a surface that faces this way.
    pub fn classify(&self) -> (r: SurfaceClass)
        ensures
            r == self.class(),
    {
        let ax: i64 = if self.x < 0 {
            -(self.x as i64)
        } else {
            self.x as i64
        };
        let ay: i64 = if self.y < 0 {
            -(self.y as i64)
        } else {
            self.y as i64
        };
        let az: i64 = if self.z < 0 {
            -(self.z as i64)
        } else {
            self.z as i64
        };
        if self.y != 0 && ay >= ax && ay >= az {
            if self.y > 0 {
                SurfaceClass::Floor
            } else {
                SurfaceClass::Ceiling
            }
        } else {
            SurfaceClass::Wall
        }
    }
}

/// A facing that makes a floor is never too steep to stand on.
pub proof fn lemma_floor_is_walkable(n: Direction)
    requires
        n.class() == SurfaceClass::Floor,
    ensures
        !n.below_walkable(),
{
    let x = n.x as int;
    let y = n.y as int;
    let z = n.z as int;
    assert(x * x <= y * y) by (nonlinear_arith)
        requires
            y > 0,
            -y <= x <= y,
    ;
    assert(z * z <= y * y) by (nonlinear_arith)
        requires
            y > 0,
            -y <= z <= y,
    ;
    assert(y * y > 0) by (nonlinear_arith)
        requires
            y > 0,
    ;
}

} // verus!
