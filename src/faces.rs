use vstd::prelude::*;

use crate::level::{Level, LevelView};
use crate::wall::{Wall, WallPosition};

verus! {

/// One wall to draw: a vertical quad standing on an edge of the grid.
///
/// A horizontal wall runs from `(x, y)` to `(x + 1, y)`, a vertical one from
/// `(x, y)` to `(x, y + 1)`. It rises from elevation `bottom` to `top`.
#[derive(Debug, PartialEq, Eq, Structural, Clone, Copy)]
pub struct WallFace {
    pub horizontal: bool,
    pub x: usize,
    pub y: usize,
    pub bottom: i32,
    pub top: i64,
}

/// `s` if `cond`, else nothing.
pub open spec fn seq_if<A>(cond: bool, s: Seq<A>) -> Seq<A> {
    if cond {
        s
    } else {
        Seq::empty()
    }
}

impl<FT, WT: Wall> LevelView<FT, WT> {
    /// How high the wall on side `p` of tile `(x, y)` rises: a cliff reaches
    /// the elevation of the tile on its other side, any other wall, and a cliff
    /// at the border of the level, rises one unit above the tile.
    pub open spec fn face_top(self, x: int, y: int, p: WallPosition) -> i64 {
        let (nx, ny) = match p {
            WallPosition::Bottom => (x, y - 1),
            WallPosition::Top => (x, y + 1),
            WallPosition::Left => (x - 1, y),
            WallPosition::Right => (x + 1, y),
        };
        if self.wall(x, y, p)->0.spec_is_cliff() && self.in_bounds(nx, ny) {
            self.z(nx, ny) as i64
        } else {
            (self.z(x, y) + 1) as i64
        }
    }

    /// The face of the wall on side `p` of tile `(x, y)`, if there is one.
    pub open spec fn side_faces(self, x: int, y: int, p: WallPosition) -> Seq<WallFace> {
        seq_if(
            self.wall(x, y, p) is Some,
            seq![
                WallFace {
                    horizontal: p == WallPosition::Bottom || p == WallPosition::Top,
                    x: (if p == WallPosition::Right {
                        x + 1
                    } else {
                        x
                    }) as usize,
                    y: (if p == WallPosition::Top {
                        y + 1
                    } else {
                        y
                    }) as usize,
                    bottom: self.z(x, y),
                    top: self.face_top(x, y, p),
                },
            ],
        )
    }

    /// The faces of the walls around tile `(x, y)`, in the order bottom, left,
    /// top, right.
    pub open spec fn tile_faces(self, x: int, y: int) -> Seq<WallFace> {
        self.side_faces(x, y, WallPosition::Bottom) + self.side_faces(x, y, WallPosition::Left)
            + self.side_faces(x, y, WallPosition::Top) + self.side_faces(x, y, WallPosition::Right)
    }

    /// The faces of the first `n` tiles of column `x`, `y` ascending.
    pub open spec fn column_faces(self, x: int, n: int) -> Seq<WallFace>
        decreases n,
    {
        if n <= 0 {
            Seq::empty()
        } else {
            self.column_faces(x, n - 1) + self.tile_faces(x, n - 1)
        }
    }

    /// The faces of the first `n` columns, `x` ascending.
    pub open spec fn level_faces(self, n: int) -> Seq<WallFace>
        decreases n,
    {
        if n <= 0 {
            Seq::empty()
        } else {
            self.level_faces(n - 1) + self.column_faces(n - 1, self.depth as int)
        }
    }
}

impl<FT: Default + Clone, WT: Wall + Default + Clone> Level<FT, WT> {
    /// Appends the face of the wall on side `p` of tile `(x, y)`, if there is
    /// one.
    fn push_face(&self, faces: &mut Vec<WallFace>, x: usize, y: usize, p: WallPosition)
        requires
            self@.wf(),
            self@.in_bounds(x as int, y as int),
        ensures
            final(faces)@ == old(faces)@ + self@.side_faces(x as int, y as int, p),
    {
        let width = self.width();
        let depth = self.depth();
        let z = self.z(x, y);
        match self.wall(x, y, p) {
            Some(data) => {
                let cliff = data.is_cliff();
                let (horizontal, fx, fy, top) = match p {
                    WallPosition::Bottom => {
                        let top = if cliff && y > 0 {
                            self.z(x, y - 1) as i64
                        } else {
                            z as i64 + 1
                        };
                        (true, x, y, top)
                    },
                    WallPosition::Left => {
                        let top = if cliff && x > 0 {
                            self.z(x - 1, y) as i64
                        } else {
                            z as i64 + 1
                        };
                        (false, x, y, top)
                    },
                    WallPosition::Top => {
                        let top = if cliff && y + 1 < depth {
                            self.z(x, y + 1) as i64
                        } else {
                            z as i64 + 1
                        };
                        (true, x, y + 1, top)
                    },
                    WallPosition::Right => {
                        let top = if cliff && x + 1 < width {
                            self.z(x + 1, y) as i64
                        } else {
                            z as i64 + 1
                        };
                        (false, x + 1, y, top)
                    },
                };
                faces.push(WallFace { horizontal, x: fx, y: fy, bottom: z, top });
            },
            None => {},
        }
        proof {
            assert(faces@ =~= old(faces)@ + self@.side_faces(x as int, y as int, p));
        }
    }

    /// Returns the walls of the level as faces to draw, tile by tile (`x`
    /// outer, `y` inner) and, around each tile, bottom, left, top, right.
    ///
    /// An edge between two tiles that both report its wall gives two faces,
    /// one from each side, each standing on its own tile's elevation.
    pub fn wall_faces(&self) -> (r: Vec<WallFace>)
        requires
            self@.wf(),
        ensures
            r@ == self@.level_faces(self@.width as int),
    {
        let width = self.width();
        let depth = self.depth();
        let mut faces: Vec<WallFace> = Vec::new();
        let mut x: usize = 0;
        while x < width
            invariant
                self@.wf(),
                width == self@.width,
                depth == self@.depth,
                x <= width,
                faces@ == self@.level_faces(x as int),
            decreases width - x,
        {
            let mut y: usize = 0;
            while y < depth
                invariant
                    self@.wf(),
                    width == self@.width,
                    depth == self@.depth,
                    x < width,
                    y <= depth,
                    faces@ == self@.level_faces(x as int) + self@.column_faces(x as int, y as int),
                decreases depth - y,
            {
                let ghost before = faces@;
                self.push_face(&mut faces, x, y, WallPosition::Bottom);
                self.push_face(&mut faces, x, y, WallPosition::Left);
                self.push_face(&mut faces, x, y, WallPosition::Top);
                self.push_face(&mut faces, x, y, WallPosition::Right);
                proof {
                    let t = self@.tile_faces(x as int, y as int);
                    assert(faces@ =~= before + t);
                    assert(faces@ =~= self@.level_faces(x as int) + self@.column_faces(
                        x as int,
                        y + 1,
                    ));
                }
                y = y + 1;
            }
            x = x + 1;
        }
        faces
    }
}

} // verus!
