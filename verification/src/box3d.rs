//! The plain records of the Box3D interface: ids, contact events, and the definition
//! fields that hold no real numbers.

use vstd::prelude::*;

verus! {

/// A world's slot (one-based) and the slot's generation.
#[derive(Debug, Clone, Copy, PartialEq, Eq, Structural)]
pub struct b3WorldId {
    pub index1: u16,
    pub generation: u16,
}

impl Default for b3WorldId {
    fn default() -> (r: Self)
        ensures
            r == (b3WorldId { index1: 0, generation: 0 }),
    {
        b3WorldId { index1: 0, generation: 0 }
    }
}

/// A body's slot (one-based), its world, and the slot's generation.
#[derive(Debug, Clone, Copy, PartialEq, Eq, Structural)]
pub struct b3BodyId {
    pub index1: i32,
    pub world0: u16,
    pub generation: u16,
}

impl Default for b3BodyId {
    fn default() -> (r: Self)
        ensures
            r == (b3BodyId { index1: 0, world0: 0, generation: 0 }),
    {
        b3BodyId { index1: 0, world0: 0, generation: 0 }
    }
}

impl b3BodyId {
    /// Slots count from one, so slot zero names no body.
    pub fn is_null(self) -> (r: bool)
        ensures
            r == (self.index1 == 0),
    {
        self.index1 == 0
    }
}

/// A shape's slot (one-based), its world, and the slot's generation.
#[derive(Debug, Clone, Copy, PartialEq, Eq, Structural)]
pub struct b3ShapeId {
    pub index1: i32,
    pub world0: u16,
    pub generation: u16,
}

impl Default for b3ShapeId {
    fn default() -> (r: Self)
        ensures
            r == (b3ShapeId { index1: 0, world0: 0, generation: 0 }),
    {
        b3ShapeId { index1: 0, world0: 0, generation: 0 }
    }
}

/// A contact's slot (one-based), its world, and the slot's generation.
#[derive(Debug, Clone, Copy, PartialEq, Eq, Structural)]
pub struct b3ContactId {
    pub index1: i32,
    pub world0: u16,
    pub padding: i16,
    pub generation: u32,
}

impl Default for b3ContactId {
    fn default() -> (r: Self)
        ensures
            r == (b3ContactId { index1: 0, world0: 0, padding: 0, generation: 0 }),
    {
        b3ContactId { index1: 0, world0: 0, padding: 0, generation: 0 }
    }
}

/// How many of each object a world reserves room for.
#[derive(Debug, Clone, Copy, PartialEq, Eq, Structural)]
pub struct b3Capacity {
    pub staticShapeCount: i32,
    pub dynamicShapeCount: i32,
    pub staticBodyCount: i32,
    pub dynamicBodyCount: i32,
    pub contactCount: i32,
}

impl Default for b3Capacity {
    fn default() -> (r: Self)
        ensures
            r == (b3Capacity {
                staticShapeCount: 0,
                dynamicShapeCount: 0,
                staticBodyCount: 0,
                dynamicBodyCount: 0,
                contactCount: 0,
            }),
    {
        b3Capacity {
            staticShapeCount: 0,
            dynamicShapeCount: 0,
            staticBodyCount: 0,
            dynamicBodyCount: 0,
            contactCount: 0,
        }
    }
}

/// A body's type: static, kinematic or dynamic.
pub type b3BodyType = i32;

pub const b3_staticBody: b3BodyType = 0;

pub const b3_kinematicBody: b3BodyType = 1;

pub const b3_dynamicBody: b3BodyType = 2;

/// The axes a body may not move along or turn about.
#[derive(Debug, Clone, Copy, PartialEq, Eq, Structural)]
pub struct b3MotionLocks {
    pub linearX: bool,
    pub linearY: bool,
    pub linearZ: bool,
    pub angularX: bool,
    pub angularY: bool,
    pub angularZ: bool,
}

impl Default for b3MotionLocks {
    fn default() -> (r: Self)
        ensures
            r == (b3MotionLocks {
                linearX: false,
                linearY: false,
                linearZ: false,
                angularX: false,
                angularY: false,
                angularZ: false,
            }),
    {
        b3MotionLocks {
            linearX: false,
            linearY: false,
            linearZ: false,
            angularX: false,
            angularY: false,
            angularZ: false,
        }
    }
}

/// Which shapes a shape collides with.
#[derive(Debug, Clone, Copy, PartialEq, Eq, Structural)]
pub struct b3Filter {
    pub categoryBits: u64,
    pub maskBits: u64,
    pub groupIndex: i32,
}

impl Default for b3Filter {
    fn default() -> (r: Self)
        ensures
            r == (b3Filter { categoryBits: 0, maskBits: 0, groupIndex: 0 }),
    {
        b3Filter { categoryBits: 0, maskBits: 0, groupIndex: 0 }
    }
}

/// A hull vertex: one half edge that leaves it.
#[derive(Debug, Clone, Copy, PartialEq, Eq, Structural)]
pub struct b3HullVertex {
    pub edge: u8,
}

impl Default for b3HullVertex {
    fn default() -> (r: Self)
        ensures
            r == (b3HullVertex { edge: 0 }),
    {
        b3HullVertex { edge: 0 }
    }
}

/// A hull half edge.
#[derive(Debug, Clone, Copy, PartialEq, Eq, Structural)]
pub struct b3HullHalfEdge {
    pub next: u8,
    pub twin: u8,
    pub origin: u8,
    pub face: u8,
}

impl Default for b3HullHalfEdge {
    fn default() -> (r: Self)
        ensures
            r == (b3HullHalfEdge { next: 0, twin: 0, origin: 0, face: 0 }),
    {
        b3HullHalfEdge { next: 0, twin: 0, origin: 0, face: 0 }
    }
}

/// A hull face: one half edge on its border.
#[derive(Debug, Clone, Copy, PartialEq, Eq, Structural)]
pub struct b3HullFace {
    pub edge: u8,
}

impl Default for b3HullFace {
    fn default() -> (r: Self)
        ensures
            r == (b3HullFace { edge: 0 }),
    {
        b3HullFace { edge: 0 }
    }
}

/// Two shapes began to touch.
#[derive(Debug, Clone, Copy)]
pub struct b3ContactBeginTouchEvent {
    pub shapeIdA: b3ShapeId,
    pub shapeIdB: b3ShapeId,
    pub contactId: b3ContactId,
}

/// Two shapes stopped touching.
#[derive(Debug, Clone, Copy)]
pub struct b3ContactEndTouchEvent {
    pub shapeIdA: b3ShapeId,
    pub shapeIdB: b3ShapeId,
    pub contactId: b3ContactId,
}

/// Answers a build that links this crate: 42 for 1.
pub fn b3dsys_probe(x: i32) -> (r: i32)
    ensures
        r == (if x + 41 > i32::MAX {
            x + 41 - 0x1_0000_0000
        } else {
            x + 41
        }),
{
    x.wrapping_add(41)
}

} // verus!
