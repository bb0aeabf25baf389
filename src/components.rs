use vstd::prelude::*;

verus! {

/// A tile coordinate; each entity's position is its own value.
#[derive(Clone, Copy, Debug, PartialEq, Eq, Structural)]
pub struct Position {
    pub x: i32,
    pub y: i32,
}

/// Marks the player entity and holds its hit points.
#[derive(Clone, Copy, Debug, PartialEq, Eq, Structural)]
pub struct Player {
    pub hp: i32,
}

/// Marks a monster entity and holds its hit points.
#[derive(Clone, Copy, Debug, PartialEq, Eq, Structural)]
pub struct Monster {
    pub hp: i32,
}

} // verus!
