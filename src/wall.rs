use vstd::prelude::*;

verus! {

/// Side of a tile on which a wall stands.
#[derive(Debug, PartialEq, Eq, Structural, Clone, Copy)]
pub enum WallPosition {
    /// Between the tile and the tile at `(x - 1, y)`.
    Left,
    /// Between the tile and the tile at `(x + 1, y)`.
    Right,
    /// Between the tile and the tile at `(x, y + 1)`.
    Top,
    /// Between the tile and the tile at `(x, y - 1)`.
    Bottom,
}

/// Data carried by a wall.
///
/// A renderer asks a wall what kind it is: a cliff is drawn as a slope between
/// the two elevations, a border as the edge of the level.
pub trait Wall: Default {
    /// Whether this wall is a cliff, in the model.
    spec fn spec_is_cliff(&self) -> bool;

    /// Whether this wall is a border wall, in the model.
    spec fn spec_is_border(&self) -> bool;

    /// Returns true if the wall is a cliff wall.
    fn is_cliff(&self) -> (r: bool)
        ensures
            r == self.spec_is_cliff(),
    ;

    /// Returns true if the wall is a border wall.
    fn is_border(&self) -> (r: bool)
        ensures
            r == self.spec_is_border(),
    ;
}

/// The unit wall carries no information: it is neither a cliff nor a border.
impl Wall for () {
    open spec fn spec_is_cliff(&self) -> bool {
        false
    }

    open spec fn spec_is_border(&self) -> bool {
        false
    }

    fn is_cliff(&self) -> (r: bool) {
        false
    }

    fn is_border(&self) -> (r: bool) {
        false
    }
}

/// A very simple implementation of wall.
#[derive(Debug, PartialEq, Eq, Structural, Clone, Copy)]
pub enum SimpleWall {
    /// Cliff wall, where there isn't really a wall, more of a slope.
    Cliff,
    /// Normal wall.
    Normal,
    /// Border wall.
    Border,
}

impl Wall for SimpleWall {
    open spec fn spec_is_cliff(&self) -> bool {
        *self == SimpleWall::Cliff
    }

    open spec fn spec_is_border(&self) -> bool {
        *self == SimpleWall::Border
    }

    fn is_cliff(&self) -> (r: bool) {
        match *self {
            SimpleWall::Cliff => true,
            _ => false,
        }
    }

    fn is_border(&self) -> (r: bool) {
        match *self {
            SimpleWall::Border => true,
            _ => false,
        }
    }
}

impl Default for SimpleWall {
    /// A wall is normal unless said otherwise.
    fn default() -> (r: Self)
        ensures
            r == SimpleWall::Normal,
    {
        SimpleWall::Normal
    }
}

} // verus!
