use vstd::prelude::*;

use crate::level::{Level, LevelView};

verus! {

/// One of the four corners of a tile `(x, y)`, which spans `x..x + 1` and
/// `y..y + 1`.
#[derive(Debug, PartialEq, Eq, Structural, Clone, Copy)]
pub enum Corner {
    /// The corner at `(x, y)`.
    BottomLeft,
    /// The corner at `(x + 1, y)`.
    BottomRight,
    /// The corner at `(x, y + 1)`.
    TopLeft,
    /// The corner at `(x + 1, y + 1)`.
    TopRight,
}

impl Corner {
    /// Step along x, then along y, from a tile towards the tiles that share
    /// this corner.
    pub open spec fn direction(self) -> (int, int) {
        match self {
            Corner::BottomLeft => (-1, -1),
            Corner::BottomRight => (1, -1),
            Corner::TopLeft => (-1, 1),
            Corner::TopRight => (1, 1),
        }
    }
}

/// The elevations that meet at a corner of a tile: their sum and how many
/// there are. Their average is the height at which the corner is drawn.
#[derive(Debug, PartialEq, Eq, Structural, Clone, Copy)]
pub struct CornerHeight {
    pub sum: i64,
    pub count: i64,
}

impl<FT, WT> LevelView<FT, WT> {
    /// Whether a move from tile `(x, y)` by `(dx, dy)` is possible.
    pub open spec fn open_towards(self, x: int, y: int, dx: int, dy: int) -> bool {
        self.move_possible((x, y), (x + dx, y + dy))
    }

    /// Elevation of tile `(x, y)` if `open`, else nothing.
    pub open spec fn z_if(self, open: bool, x: int, y: int) -> int {
        if open {
            self.z(x, y) as int
        } else {
            0
        }
    }

    /// Sum and number of the elevations that meet at corner `c` of tile
    /// `(x, y)`, as seen from that tile.
    ///
    /// The tile itself always counts. The two tiles beside it towards the
    /// corner count when the move to them is possible. The tile across the
    /// corner counts when the move to it is possible and so is the move to one
    /// particular side neighbour: the one along x for the bottom-left and
    /// top-right corners, the one along y for the other two.
    pub open spec fn corner_height(self, x: int, y: int, c: Corner) -> (int, int) {
        let (sx, sy) = c.direction();
        let along_x = self.open_towards(x, y, sx, 0);
        let along_y = self.open_towards(x, y, 0, sy);
        let guard = match c {
            Corner::BottomLeft | Corner::TopRight => along_x,
            _ => along_y,
        };
        let across = guard && self.open_towards(x, y, sx, sy);
        (
            self.z(x, y) + self.z_if(along_x, x + sx, y) + self.z_if(along_y, x, y + sy)
                + self.z_if(across, x + sx, y + sy),
            1 + (if along_x {
                1int
            } else {
                0
            }) + (if along_y {
                1int
            } else {
                0
            }) + (if across {
                1int
            } else {
                0
            }),
        )
    }
}

impl<FT: Default + Clone, WT: Default + Clone> Level<FT, WT> {
    /// The tile at `(x, y)` moved by `(dx, dy)`, each in `-1..=1`, if a move
    /// there from `(x, y)` is possible.
    fn neighbour_towards(&self, x: usize, y: usize, dx: i8, dy: i8) -> (r: Option<(usize, usize)>)
        requires
            self@.wf(),
            self@.in_bounds(x as int, y as int),
            -1 <= dx <= 1,
            -1 <= dy <= 1,
        ensures
            r is Some <==> self@.open_towards(x as int, y as int, dx as int, dy as int),
            r matches Some(t) ==> t.0 == x + dx && t.1 == y + dy && self@.in_bounds(
                t.0 as int,
                t.1 as int,
            ),
    {
        // Bounds x + 1 and y + 1.
        let width = self.width();
        let depth = self.depth();
        if (dx < 0 && x == 0) || (dy < 0 && y == 0) {
            return None;
        }
        let tx = if dx < 0 {
            x - 1
        } else if dx > 0 {
            x + 1
        } else {
            x
        };
        let ty = if dy < 0 {
            y - 1
        } else if dy > 0 {
            y + 1
        } else {
            y
        };
        if self.is_move_possible((x, y), (tx, ty)) {
            Some((tx, ty))
        } else {
            None
        }
    }

    /// Returns the elevations that meet at corner `c` of tile `(x, y)`: the
    /// tile's own and those of the neighbours towards that corner that can be
    /// reached from it (see `LevelView::corner_height`).
    pub fn corner_height(&self, x: usize, y: usize, c: Corner) -> (r: CornerHeight)
        requires
            self@.wf(),
            self@.in_bounds(x as int, y as int),
        ensures
            (r.sum as int, r.count as int) == self@.corner_height(x as int, y as int, c),
    {
        let (sx, sy): (i8, i8) = match c {
            Corner::BottomLeft => (-1, -1),
            Corner::BottomRight => (1, -1),
            Corner::TopLeft => (-1, 1),
            Corner::TopRight => (1, 1),
        };
        let mut sum = self.z(x, y) as i64;
        let mut count: i64 = 1;
        let along_x = self.neighbour_towards(x, y, sx, 0);
        if let Some(t) = along_x {
            sum = sum + self.z(t.0, t.1) as i64;
            count = count + 1;
        }
        let along_y = self.neighbour_towards(x, y, 0, sy);
        if let Some(t) = along_y {
            sum = sum + self.z(t.0, t.1) as i64;
            count = count + 1;
        }
        let guard = match c {
            Corner::BottomLeft | Corner::TopRight => along_x.is_some(),
            _ => along_y.is_some(),
        };
        if guard {
            if let Some(t) = self.neighbour_towards(x, y, sx, sy) {
                sum = sum + self.z(t.0, t.1) as i64;
                count = count + 1;
            }
        }
        CornerHeight { sum, count }
    }
}

} // verus!
