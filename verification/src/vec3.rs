//! Triples of coordinates, held by their order keys.
//!
//! A key is an integer that stands for a real coordinate. Keys compare as the
//! coordinates they stand for, and key 0 stands for coordinate 0. Whatever
//! this crate computes from coordinates it computes by comparing and moving
//! them, never by arithmetic, so what it gives on keys is what it gives on
//! the coordinates themselves.

use vstd::prelude::*;

verus! {

/// The order key of one coordinate.
pub type Key = i64;

/// The smaller of two keys.
pub open spec fn lower(a: Key, b: Key) -> Key {
    if a <= b {
        a
    } else {
        b
    }
}

/// The larger of two keys.
pub open spec fn upper(a: Key, b: Key) -> Key {
    if a >= b {
        a
    } else {
        b
    }
}

/// Computes [`lower`].
pub fn key_min(a: Key, b: Key) -> (r: Key)
    ensures
        r == lower(a, b),
{
    if a <= b {
        a
    } else {
        b
    }
}

/// Computes [`upper`].
pub fn key_max(a: Key, b: Key) -> (r: Key)
    ensures
        r == upper(a, b),
{
    if a >= b {
        a
    } else {
        b
    }
}

/// Three coordinates, one per axis.
#[derive(Clone, Copy, Debug, PartialEq, Eq, Structural)]
pub struct Vec3 {
    pub x: Key,
    pub y: Key,
    pub z: Key,
}

pub type Point = Vec3;

impl Vec3 {
    /// The coordinate on `axis`, with x = 0, y = 1 and z = 2.
    pub open spec fn get(self, axis: int) -> Key {
        if axis == 0 {
            self.x
        } else if axis == 1 {
            self.y
        } else {
            self.z
        }
    }

    /// The triple with every coordinate equal to `val`.
    pub open spec fn splat(val: Key) -> Vec3 {
        Vec3 { x: val, y: val, z: val }
    }

    /// The triple whose coordinates are the smaller of each pair.
    pub open spec fn meet(self, other: Vec3) -> Vec3 {
        Vec3 {
            x: lower(self.x, other.x),
            y: lower(self.y, other.y),
            z: lower(self.z, other.z),
        }
    }

    /// The triple whose coordinates are the larger of each pair.
    pub open spec fn join(self, other: Vec3) -> Vec3 {
        Vec3 {
            x: upper(self.x, other.x),
            y: upper(self.y, other.y),
            z: upper(self.z, other.z),
        }
    }

    /// Whether no coordinate of `self` is above the same coordinate of `other`.
    pub open spec fn le(self, other: Vec3) -> bool {
        self.x <= other.x && self.y <= other.y && self.z <= other.z
    }

    pub fn new(x: Key, y: Key, z: Key) -> (r: Self)
        ensures
            r == (Vec3 { x, y, z }),
    {
        Vec3 { x, y, z }
    }

    pub fn from(val: Key) -> (r: Self)
        ensures
            r == Vec3::splat(val),
    {
        Vec3 { x: val, y: val, z: val }
    }

    /// The origin.
    pub fn zeros() -> (r: Self)
        ensures
            r == Vec3::splat(0),
    {
        Vec3 { x: 0, y: 0, z: 0 }
    }

    /// The coordinate on axis `index`.
    pub fn index(&self, index: usize) -> (r: Key)
        requires
            index < 3,
        ensures
            r == self.get(index as int),
    {
        if index == 0 {
            self.x
        } else if index == 1 {
            self.y
        } else {
            self.z
        }
    }

    /// Caps every coordinate from below at `val`.
    pub fn max(&self, val: Key) -> (r: Self)
        ensures
            r == self.join(Vec3::splat(val)),
    {
        Vec3 { x: key_max(self.x, val), y: key_max(self.y, val), z: key_max(self.z, val) }
    }

    /// Caps every coordinate from above at `val`.
    pub fn min(&self, val: Key) -> (r: Self)
        ensures
            r == self.meet(Vec3::splat(val)),
    {
        Vec3 { x: key_min(self.x, val), y: key_min(self.y, val), z: key_min(self.z, val) }
    }
}

} // verus!
