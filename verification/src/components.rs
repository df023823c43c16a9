//! Component value types attached to entities, and the grid geometry they
//! live on.

use vstd::prelude::*;

verus! {

/// Coordinates are kept within this bound so that squared distances and
/// bounding-box arithmetic over them always fit in an `i64`.
pub const COORD_LIMIT: i64 = 1048576;

/// Opaque unique entity handle; generated monotonically, never reused.
#[derive(Clone, Copy, PartialEq, Eq, Structural, Debug, Hash)]
pub struct EntityId(pub u64);

/// Integer grid coordinate; the only spatially indexed component.
#[derive(Clone, Copy, PartialEq, Eq, Structural, Debug)]
pub struct Position {
    pub x: i64,
    pub y: i64,
}

/// Whether a position lies on the bounded grid.
pub open spec fn in_bounds(p: Position) -> bool {
    -COORD_LIMIT <= p.x <= COORD_LIMIT && -COORD_LIMIT <= p.y <= COORD_LIMIT
}

/// Squared grid distance between two points, as a mathematical integer.
pub open spec fn sq_dist(a: (i64, i64), b: (i64, i64)) -> int {
    (a.0 - b.0) * (a.0 - b.0) + (a.1 - b.1) * (a.1 - b.1)
}

#[derive(Clone, Copy, PartialEq, Eq, Structural, Debug)]
pub struct Attack(pub i64);

#[derive(Clone, Copy, PartialEq, Eq, Structural, Debug)]
pub struct Health(pub i64);

/// Must be positive wherever it is used as a divisor; a zero value is a
/// configuration fault and its energy-cost computation is skipped.
#[derive(Clone, Copy, PartialEq, Eq, Structural, Debug)]
pub struct Initiative(pub u32);

#[derive(Debug)]
pub struct Name(pub String);

impl Clone for Name {
    /// The clone carries the same characters.
    fn clone(&self) -> (r: Self)
        ensures
            r == *self,
    {
        Name(self.0.clone())
    }
}

/// A displayable glyph: a character and a packed RGBA color.
#[derive(Clone, Copy, PartialEq, Eq, Structural, Debug)]
pub struct Glyph {
    pub character: char,
    pub color: u32,
}

#[derive(Clone, Copy, PartialEq, Eq, Structural, Debug)]
pub struct Player;

#[derive(Clone, Copy, PartialEq, Eq, Structural, Debug)]
pub struct Solid;

#[derive(Clone, Copy, PartialEq, Eq, Structural, Debug)]
pub struct Item;

#[derive(Clone, Copy, PartialEq, Eq, Structural, Debug)]
pub struct CarriedBy(pub EntityId);

/// Accumulated energy; may go negative.
#[derive(Clone, Copy, PartialEq, Eq, Structural, Debug)]
pub struct Energy(pub i64);

#[derive(Clone, Copy, PartialEq, Eq, Structural, Debug)]
pub struct ActionCost(pub u32);

/// Initial component bundle for a named entity template.
#[derive(Debug)]
pub struct EntityTemplate {
    pub name: Name,
    pub glyph: Glyph,
    pub attack: Attack,
    pub health: Health,
    pub initiative: Initiative,
}

impl Clone for EntityTemplate {
    /// The clone carries the same component values.
    fn clone(&self) -> (r: Self)
        ensures
            r == *self,
    {
        EntityTemplate {
            name: self.name.clone(),
            glyph: self.glyph,
            attack: self.attack,
            health: self.health,
            initiative: self.initiative,
        }
    }
}

/// Hands out fresh entity ids, monotonically.
pub struct EntityIdGenerator {
    next_id: u64,
}

impl EntityIdGenerator {
    pub closed spec fn counter(&self) -> u64 {
        self.next_id
    }

    pub fn new() -> (g: Self)
        ensures
            g.counter() == 0,
    {
        EntityIdGenerator { next_id: 0 }
    }

    /// Returns the current counter as a fresh id and advances it.
    pub fn next(&mut self) -> (id: EntityId)
        requires
            old(self).counter() < u64::MAX,
        ensures
            id == (EntityId(old(self).counter())),
            final(self).counter() == old(self).counter() + 1,
    {
        let next = self.next_id;
        self.next_id = self.next_id + 1;
        EntityId(next)
    }
}

} // verus!
