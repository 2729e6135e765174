use vstd::prelude::*;

verus! {

/// Identifies an entity of the host's world.
#[derive(Clone, Copy, Debug, PartialEq, Eq, Structural, Hash)]
pub struct EntityId(pub u64);

/// A pointer button.
#[derive(Clone, Copy, Debug, PartialEq, Eq, Structural, Hash)]
pub enum MouseButton {
    Left,
    Right,
    Middle,
    Back,
    Forward,
    Other(u16),
}

/// A pointer position on the tracked surface.
///
/// Each coordinate is kept as the bit pattern of a 32-bit float: the machine
/// stores and hands back positions, it never reads them.
#[derive(Clone, Copy, Debug, PartialEq, Eq, Structural, Hash)]
pub struct Position {
    pub x_bits: u32,
    pub y_bits: u32,
}

impl Position {
    /// The origin, `(0.0, 0.0)`.
    pub fn zero() -> (r: Position)
        ensures
            r == Position::origin(),
    {
        Position { x_bits: 0, y_bits: 0 }
    }

    pub open spec fn origin() -> Position {
        Position { x_bits: 0, y_bits: 0 }
    }
}

} // verus!
