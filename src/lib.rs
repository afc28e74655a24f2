//! A fixed-size tile grid for an isometric game world: per-tile elevation and
//! payload, walls on the edges between tiles, the rule for which moves between
//! neighbouring tiles are possible, and a ray-marched visibility window around
//! an observer.
//!
//! Every edge has exactly one slot, shared by the two tiles it separates, so the
//! right side of a tile and the left side of its neighbour are the same wall.

pub mod ascii;
pub mod corners;
pub mod faces;
pub mod level;
pub mod visibility;
pub mod wall;

pub use corners::{Corner, CornerHeight};
pub use faces::WallFace;
pub use level::{Level, LevelView};
pub use visibility::Visibility;
pub use wall::{SimpleWall, Wall, WallPosition};
