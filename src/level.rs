use vstd::prelude::*;

use crate::wall::WallPosition;

verus! {

/// Whether `v` is a value that `T::default()` may return.
pub open spec fn is_default_value<T: Default>(v: T) -> bool {
    call_ensures(T::default, (), v)
}

/// Mathematical model of a level.
///
/// Tiles are addressed by `(x, y)` with `0 <= x < width` and `0 <= y < depth`.
/// Each edge between two tiles, or between a tile and the outside, has exactly
/// one slot: the horizontal edges (those crossed along the y axis) live in
/// `walls_h`, the vertical ones (crossed along the x axis) in `walls_v`.
#[verifier::ext_equal]
pub struct LevelView<FT, WT> {
    pub width: nat,
    pub depth: nat,
    /// Elevation of tile `(x, y)`, at `tile_index(x, y)`.
    pub heights: Seq<i32>,
    /// Payload of tile `(x, y)`, at `tile_index(x, y)`.
    pub data: Seq<FT>,
    /// Edge `j` (for `0 <= j <= depth`) of column `x`, below tile `(x, j)`,
    /// at `h_index(x, j)`.
    pub walls_h: Seq<Option<WT>>,
    /// Edge `i` (for `0 <= i <= width`) of row `y`, left of tile `(i, y)`,
    /// at `v_index(i, y)`.
    pub walls_v: Seq<Option<WT>>,
}

impl<FT, WT> LevelView<FT, WT> {
    /// The level has at least one tile and every array has one slot per tile
    /// or per edge.
    pub open spec fn wf(self) -> bool {
        &&& self.width >= 1
        &&& self.depth >= 1
        &&& self.heights.len() == self.width * self.depth
        &&& self.data.len() == self.width * self.depth
        &&& self.walls_h.len() == self.width * (self.depth + 1)
        &&& self.walls_v.len() == (self.width + 1) * self.depth
    }

    /// Whether `(x, y)` is a tile of the level.
    pub open spec fn in_bounds(self, x: int, y: int) -> bool {
        0 <= x < self.width && 0 <= y < self.depth
    }

    /// Slot of tile `(x, y)` in `heights` and `data`.
    pub open spec fn tile_index(self, x: int, y: int) -> int {
        y * self.width + x
    }

    /// Slot of horizontal edge `j` of column `x` in `walls_h`.
    pub open spec fn h_index(self, x: int, j: int) -> int {
        x * (self.depth + 1) + j
    }

    /// Slot of vertical edge `i` of row `y` in `walls_v`.
    pub open spec fn v_index(self, i: int, y: int) -> int {
        y * (self.width + 1) + i
    }

    /// Elevation of tile `(x, y)`.
    pub open spec fn z(self, x: int, y: int) -> i32 {
        self.heights[self.tile_index(x, y)]
    }

    /// Payload of tile `(x, y)`.
    pub open spec fn tile_data(self, x: int, y: int) -> FT {
        self.data[self.tile_index(x, y)]
    }

    /// The horizontal edge below tile `(x, j)` (above tile `(x, j - 1)`).
    pub open spec fn h_edge(self, x: int, j: int) -> Option<WT> {
        self.walls_h[self.h_index(x, j)]
    }

    /// The vertical edge left of tile `(i, y)` (right of tile `(i - 1, y)`).
    pub open spec fn v_edge(self, i: int, y: int) -> Option<WT> {
        self.walls_v[self.v_index(i, y)]
    }

    /// The wall on side `p` of tile `(x, y)`.
    pub open spec fn wall(self, x: int, y: int, p: WallPosition) -> Option<WT> {
        match p {
            WallPosition::Bottom => self.h_edge(x, y),
            WallPosition::Top => self.h_edge(x, y + 1),
            WallPosition::Left => self.v_edge(x, y),
            WallPosition::Right => self.v_edge(x + 1, y),
        }
    }

    /// Whether the single orthogonal step from tile `s` to the adjacent tile `e`
    /// is free, judged by the wall on the matching side of `s`.
    pub open spec fn step_open(self, s: (int, int), e: (int, int)) -> bool {
        if e == (s.0 + 1, s.1) {
            self.wall(s.0, s.1, WallPosition::Right) is None
        } else if e == (s.0 - 1, s.1) {
            self.wall(s.0, s.1, WallPosition::Left) is None
        } else if e == (s.0, s.1 + 1) {
            self.wall(s.0, s.1, WallPosition::Top) is None
        } else if e == (s.0, s.1 - 1) {
            self.wall(s.0, s.1, WallPosition::Bottom) is None
        } else {
            false
        }
    }

    /// Whether a character can move from tile `s` to tile `e`.
    ///
    /// Staying in place is always possible. Otherwise `e` must be inside the
    /// level and adjacent to `s`, orthogonally or diagonally. An orthogonal
    /// step needs the edge between the two tiles to be open; a diagonal one
    /// needs one of the two L-shaped paths through a neighbouring tile, first
    /// along x then along y or the other way round, to be open.
    pub open spec fn move_possible(self, s: (int, int), e: (int, int)) -> bool {
        let dx = e.0 - s.0;
        let dy = e.1 - s.1;
        if s == e {
            true
        } else if !self.in_bounds(e.0, e.1) {
            false
        } else if dx < -1 || dx > 1 || dy < -1 || dy > 1 {
            false
        } else if dx != 0 && dy != 0 {
            (self.step_open(s, (e.0, s.1)) && self.step_open((e.0, s.1), e)) || (self.step_open(
                s,
                (s.0, e.1),
            ) && self.step_open((s.0, e.1), e))
        } else {
            self.step_open(s, e)
        }
    }

    /// Whether the elevations of tiles `a` and `b` differ by `threshold` or more.
    pub open spec fn cliff_between(self, a: (int, int), b: (int, int), threshold: i32) -> bool {
        let d = self.z(a.0, a.1) - self.z(b.0, b.1);
        d >= threshold || -d >= threshold
    }

    /// Whether horizontal edge `j` of column `x` lies between two tiles: the
    /// edge between `(x, j - 1)` and `(x, j)`.
    pub open spec fn inner_h_edge(self, x: int, j: int) -> bool {
        0 <= x < self.width && 1 <= j < self.depth
    }

    /// Whether vertical edge `i` of row `y` lies between two tiles: the edge
    /// between `(i - 1, y)` and `(i, y)`.
    pub open spec fn inner_v_edge(self, i: int, y: int) -> bool {
        1 <= i < self.width && 0 <= y < self.depth
    }

    /// This level with the elevation of tile `(x, y)` set to `z`.
    pub open spec fn with_z(self, x: int, y: int, z: i32) -> Self {
        LevelView { heights: self.heights.update(self.tile_index(x, y), z), ..self }
    }

    /// This level with the payload of tile `(x, y)` set to `d`.
    pub open spec fn with_data(self, x: int, y: int, d: FT) -> Self {
        LevelView { data: self.data.update(self.tile_index(x, y), d), ..self }
    }

    /// This level with the wall on side `p` of tile `(x, y)` set to `w`.
    pub open spec fn with_wall(self, x: int, y: int, p: WallPosition, w: Option<WT>) -> Self {
        match p {
            WallPosition::Bottom => LevelView {
                walls_h: self.walls_h.update(self.h_index(x, y), w),
                ..self
            },
            WallPosition::Top => LevelView {
                walls_h: self.walls_h.update(self.h_index(x, y + 1), w),
                ..self
            },
            WallPosition::Left => LevelView {
                walls_v: self.walls_v.update(self.v_index(x, y), w),
                ..self
            },
            WallPosition::Right => LevelView {
                walls_v: self.walls_v.update(self.v_index(x + 1, y), w),
                ..self
            },
        }
    }
}

/// Staying on a tile is always a possible move.
pub proof fn lemma_move_to_self<FT, WT>(l: LevelView<FT, WT>, x: int, y: int)
    requires
        l.wf(),
        l.in_bounds(x, y),
    ensures
        l.move_possible((x, y), (x, y)),
{
}

/// Two neighbouring tiles see the edge between them as the same wall: the
/// right side of `(x, y)` is the left side of `(x + 1, y)`, and the top of
/// `(x, y)` is the bottom of `(x, y + 1)`.
pub proof fn lemma_edge_aliasing<FT, WT>(l: LevelView<FT, WT>, x: int, y: int)
    requires
        l.wf(),
        l.in_bounds(x, y),
    ensures
        l.in_bounds(x + 1, y) ==> l.wall(x, y, WallPosition::Right) == l.wall(
            x + 1,
            y,
            WallPosition::Left,
        ),
        l.in_bounds(x, y + 1) ==> l.wall(x, y, WallPosition::Top) == l.wall(
            x,
            y + 1,
            WallPosition::Bottom,
        ),
{
}

/// `x * (d + 1) + j` addresses a slot of a `w * (d + 1)` array.
proof fn lemma_grid_index(x: int, j: int, w: int, d: int)
    requires
        0 <= x < w,
        0 <= j <= d,
    ensures
        0 <= x * (d + 1) + j < w * (d + 1),
{
    assert(0 <= x * (d + 1) + j < w * (d + 1)) by (nonlinear_arith)
        requires
            0 <= x < w,
            0 <= j <= d,
    ;
}

/// `y * w + x` addresses a slot of a `w * d` array.
proof fn lemma_tile_index(x: int, y: int, w: int, d: int)
    requires
        0 <= x < w,
        0 <= y < d,
    ensures
        0 <= y * w + x < w * d,
{
    assert(0 <= y * w + x < w * d) by (nonlinear_arith)
        requires
            0 <= x < w,
            0 <= y < d,
    ;
}

/// Two slots `x * (d + 1) + j` with `0 <= j <= d` are the same only for the
/// same `x` and `j`.
proof fn lemma_grid_index_injective(x1: int, j1: int, x2: int, j2: int, d: int)
    requires
        0 <= x1,
        0 <= x2,
        0 <= j1 <= d,
        0 <= j2 <= d,
        x1 * (d + 1) + j1 == x2 * (d + 1) + j2,
    ensures
        x1 == x2,
        j1 == j2,
{
    if x1 < x2 {
        assert(x1 * (d + 1) + d < x2 * (d + 1)) by (nonlinear_arith)
            requires
                0 <= x1 < x2,
                0 <= d,
        ;
    } else if x2 < x1 {
        assert(x2 * (d + 1) + d < x1 * (d + 1)) by (nonlinear_arith)
            requires
                0 <= x2 < x1,
                0 <= d,
        ;
    }
}

/// Whether the edge slot `e` holds a copy of `data`, as `clone` makes them.
pub open spec fn holds_copy<WT: Clone>(e: Option<WT>, data: WT) -> bool {
    e is Some && cloned(data, e->0)
}

impl<FT, WT: Clone> LevelView<FT, WT> {
    /// Whether `after` is this level with a copy of `data` on every edge at
    /// its border (below the first row, above the last, left of the first
    /// column and right of the last) and every other edge as it was.
    pub open spec fn border_walls_added(self, after: Self, data: WT) -> bool {
        &&& after.wf()
        &&& after.width == self.width
        &&& after.depth == self.depth
        &&& after.heights == self.heights
        &&& after.data == self.data
        &&& forall|x: int, j: int|
            0 <= x < self.width && 0 <= j <= self.depth ==> if j == 0 || j == self.depth {
                holds_copy(#[trigger] after.h_edge(x, j), data)
            } else {
                after.h_edge(x, j) == self.h_edge(x, j)
            }
        &&& forall|i: int, y: int|
            0 <= i <= self.width && 0 <= y < self.depth ==> if i == 0 || i == self.width {
                holds_copy(#[trigger] after.v_edge(i, y), data)
            } else {
                after.v_edge(i, y) == self.v_edge(i, y)
            }
    }

    /// Whether `after` is this level with a copy of `data` on every edge
    /// between two tiles whose elevations are `threshold` or more apart, and
    /// every other edge as it was.
    pub open spec fn cliff_walls_added(self, after: Self, threshold: i32, data: WT) -> bool {
        &&& after.wf()
        &&& after.width == self.width
        &&& after.depth == self.depth
        &&& after.heights == self.heights
        &&& after.data == self.data
        &&& forall|x: int, j: int|
            0 <= x < self.width && 0 <= j <= self.depth ==> if self.inner_h_edge(x, j)
                && self.cliff_between((x, j - 1), (x, j), threshold) {
                holds_copy(#[trigger] after.h_edge(x, j), data)
            } else {
                after.h_edge(x, j) == self.h_edge(x, j)
            }
        &&& forall|i: int, y: int|
            0 <= i <= self.width && 0 <= y < self.depth ==> if self.inner_v_edge(i, y)
                && self.cliff_between((i - 1, y), (i, y), threshold) {
                holds_copy(#[trigger] after.v_edge(i, y), data)
            } else {
                after.v_edge(i, y) == self.v_edge(i, y)
            }
    }
}

/// After border walls are added, every side of a tile that faces the outside
/// has a wall, and no edge between two tiles gains one.
pub proof fn lemma_border_walls<FT, WT: Clone>(before: LevelView<FT, WT>, after: LevelView<FT, WT>, data: WT)
    requires
        before.wf(),
        before.border_walls_added(after, data),
    ensures
        forall|x: int| #![trigger after.wall(x, 0, WallPosition::Bottom)]
            0 <= x < after.width ==> after.wall(x, 0, WallPosition::Bottom) is Some && after.wall(
                x,
                after.depth - 1,
                WallPosition::Top,
            ) is Some,
        forall|y: int| #![trigger after.wall(0, y, WallPosition::Left)]
            0 <= y < after.depth ==> after.wall(0, y, WallPosition::Left) is Some && after.wall(
                after.width - 1,
                y,
                WallPosition::Right,
            ) is Some,
        forall|x: int, y: int|
            #![trigger after.wall(x, y, WallPosition::Right)]
            after.in_bounds(x, y) && after.in_bounds(x + 1, y) && before.wall(
                x,
                y,
                WallPosition::Right,
            ) is None ==> after.wall(x, y, WallPosition::Right) is None,
        forall|x: int, y: int|
            #![trigger after.wall(x, y, WallPosition::Top)]
            after.in_bounds(x, y) && after.in_bounds(x, y + 1) && before.wall(
                x,
                y,
                WallPosition::Top,
            ) is None ==> after.wall(x, y, WallPosition::Top) is None,
{
    assert forall|x: int| 0 <= x < after.width implies after.wall(x, 0, WallPosition::Bottom) is Some
        && after.wall(x, after.depth - 1, WallPosition::Top) is Some by {
        assert(holds_copy(after.h_edge(x, 0), data));
        assert(holds_copy(after.h_edge(x, after.depth as int), data));
    }
    assert forall|y: int| 0 <= y < after.depth implies after.wall(0, y, WallPosition::Left) is Some
        && after.wall(after.width - 1, y, WallPosition::Right) is Some by {
        assert(holds_copy(after.v_edge(0, y), data));
        assert(holds_copy(after.v_edge(after.width as int, y), data));
    }
    assert forall|x: int, y: int|
        after.in_bounds(x, y) && after.in_bounds(x + 1, y) && before.wall(x, y, WallPosition::Right)
            is None implies after.wall(x, y, WallPosition::Right) is None by {
        assert(after.v_edge(x + 1, y) == before.v_edge(x + 1, y));
    }
    assert forall|x: int, y: int|
        after.in_bounds(x, y) && after.in_bounds(x, y + 1) && before.wall(x, y, WallPosition::Top)
            is None implies after.wall(x, y, WallPosition::Top) is None by {
        assert(after.h_edge(x, y + 1) == before.h_edge(x, y + 1));
    }
}

/// After cliff walls are added, every edge between two neighbouring tiles
/// that had no wall before has one exactly when the elevations on its two
/// sides differ by the threshold or more.
pub proof fn lemma_cliff_walls<FT, WT: Clone>(
    before: LevelView<FT, WT>,
    after: LevelView<FT, WT>,
    threshold: i32,
    data: WT,
)
    requires
        before.wf(),
        before.cliff_walls_added(after, threshold, data),
    ensures
        forall|x: int, y: int|
            #![trigger after.wall(x, y, WallPosition::Top)]
            before.in_bounds(x, y) && before.in_bounds(x, y + 1) && before.wall(x, y, WallPosition::Top) is None ==> (
            after.wall(x, y, WallPosition::Top) is Some <==> before.cliff_between(
                (x, y),
                (x, y + 1),
                threshold,
            )),
        forall|x: int, y: int|
            #![trigger after.wall(x, y, WallPosition::Right)]
            before.in_bounds(x, y) && before.in_bounds(x + 1, y) && before.wall(x, y, WallPosition::Right) is None ==> (
            after.wall(x, y, WallPosition::Right) is Some <==> before.cliff_between(
                (x, y),
                (x + 1, y),
                threshold,
            )),
{
    assert forall|x: int, y: int|
        before.in_bounds(x, y) && before.in_bounds(x, y + 1) && before.wall(x, y, WallPosition::Top) is None implies (
        after.wall(x, y, WallPosition::Top) is Some <==> before.cliff_between(
            (x, y),
            (x, y + 1),
            threshold,
        )) by {
    }
    assert forall|x: int, y: int|
        before.in_bounds(x, y) && before.in_bounds(x + 1, y) && before.wall(x, y, WallPosition::Right) is None implies (
        after.wall(x, y, WallPosition::Right) is Some <==> before.cliff_between(
            (x, y),
            (x + 1, y),
            threshold,
        )) by {
    }
}

/// A level: a fixed-size grid of tiles, each with an elevation and a payload,
/// and walls on the edges between them.
///
/// Elevations are whole numbers of height units; a wall that is not a cliff
/// stands one unit high. The payloads of tiles (`FT`) and of walls (`WT`) are
/// the caller's own; an edge holds a wall exactly when it holds a payload.
pub struct Level<FT = (), WT = ()> {
    width: usize,
    depth: usize,
    floor: Vec<i32>,
    floor_data: Vec<FT>,
    walls_h: Vec<Option<WT>>,
    walls_v: Vec<Option<WT>>,
}

impl<FT, WT> View for Level<FT, WT> {
    type V = LevelView<FT, WT>;

    closed spec fn view(&self) -> LevelView<FT, WT> {
        LevelView {
            width: self.width as nat,
            depth: self.depth as nat,
            heights: self.floor@,
            data: self.floor_data@,
            walls_h: self.walls_h@,
            walls_v: self.walls_v@,
        }
    }
}

impl<FT: Default + Clone, WT: Default + Clone> Level<FT, WT> {
    /// Index of tile `(x, y)` in the per-tile arrays.
    fn get_index(&self, x: usize, y: usize) -> (r: usize)
        requires
            self@.wf(),
            self@.in_bounds(x as int, y as int),
        ensures
            r == self@.tile_index(x as int, y as int),
            r < self@.heights.len(),
    {
        // The length of the array bounds the index.
        let _n_tiles = self.floor.len();
        proof {
            lemma_tile_index(x as int, y as int, self.width as int, self.depth as int);
        }
        y * self.width + x
    }

    /// Creates a level of `width` by `depth` tiles, all at elevation
    /// `default_z`, with no walls and the default payload on every tile.
    pub fn new(width: usize, depth: usize, default_z: i32) -> (r: Self)
        requires
            width >= 1,
            depth >= 1,
            (width + 1) * (depth + 1) <= usize::MAX,
        ensures
            r@.wf(),
            r@.width == width,
            r@.depth == depth,
            forall|x: int, y: int| #[trigger] r@.in_bounds(x, y) ==> r@.z(x, y) == default_z,
            forall|i: int| 0 <= i < r@.heights.len() ==> r@.heights[i] == default_z,
            forall|i: int| 0 <= i < r@.data.len() ==> is_default_value(#[trigger] r@.data[i]),
            forall|i: int| 0 <= i < r@.walls_h.len() ==> (#[trigger] r@.walls_h[i]).is_none(),
            forall|i: int| 0 <= i < r@.walls_v.len() ==> (#[trigger] r@.walls_v[i]).is_none(),
    {
        proof {
            assert((width + 1) * (depth + 1) == width * (depth + 1) + depth + 1)
                by (nonlinear_arith);
            assert((width + 1) * (depth + 1) == (width + 1) * depth + width + 1)
                by (nonlinear_arith);
            assert(width * (depth + 1) == width * depth + width) by (nonlinear_arith);
        }
        let n_tiles = width * depth;
        let n_h = width * (depth + 1);
        let n_v = (width + 1) * depth;
        let mut floor: Vec<i32> = Vec::new();
        let mut floor_data: Vec<FT> = Vec::new();
        while floor.len() < n_tiles
            invariant
                floor.len() == floor_data.len() <= n_tiles,
                forall|i: int| 0 <= i < floor.len() ==> floor@[i] == default_z,
                forall|i: int| 0 <= i < floor_data.len() ==> is_default_value(#[trigger] floor_data@[i]),
            decreases n_tiles - floor.len(),
        {
            floor.push(default_z);
            floor_data.push(FT::default());
        }
        let mut walls_h: Vec<Option<WT>> = Vec::new();
        while walls_h.len() < n_h
            invariant
                walls_h.len() <= n_h,
                forall|i: int| 0 <= i < walls_h.len() ==> (#[trigger] walls_h@[i]).is_none(),
            decreases n_h - walls_h.len(),
        {
            walls_h.push(None);
        }
        let mut walls_v: Vec<Option<WT>> = Vec::new();
        while walls_v.len() < n_v
            invariant
                walls_v.len() <= n_v,
                forall|i: int| 0 <= i < walls_v.len() ==> (#[trigger] walls_v@[i]).is_none(),
            decreases n_v - walls_v.len(),
        {
            walls_v.push(None);
        }
        let r = Level { width, depth, floor, floor_data, walls_h, walls_v };
        proof {
            assert forall|x: int, y: int| #[trigger] r@.in_bounds(x, y) implies r@.z(x, y)
                == default_z by {
                lemma_tile_index(x, y, width as int, depth as int);
            }
        }
        r
    }

    /// Returns the width of the level.
    pub fn width(&self) -> (r: usize)
        ensures
            r == self@.width,
    {
        self.width
    }

    /// Returns the depth of the level.
    pub fn depth(&self) -> (r: usize)
        ensures
            r == self@.depth,
    {
        self.depth
    }

    /// Returns the elevation of tile `(x, y)`.
    pub fn z(&self, x: usize, y: usize) -> (r: i32)
        requires
            self@.wf(),
            self@.in_bounds(x as int, y as int),
        ensures
            r == self@.z(x as int, y as int),
    {
        let i = self.get_index(x, y);
        self.floor[i]
    }

    /// Sets the elevation of tile `(x, y)`.
    pub fn set_z(&mut self, x: usize, y: usize, z: i32) -> (r: &mut Self)
        requires
            old(self)@.wf(),
            old(self)@.in_bounds(x as int, y as int),
        ensures
            r@ == old(self)@.with_z(x as int, y as int, z),
            *final(self) == *final(r),
    {
        let i = self.get_index(x, y);
        self.floor.set(i, z);
        proof {
            assert(self@ =~= old(self)@.with_z(x as int, y as int, z));
        }
        self
    }

    /// Slot of the edge on side `p` of tile `(x, y)`: whether it is a horizontal
    /// edge, and its index in its array.
    fn edge_slot(&self, x: usize, y: usize, p: WallPosition) -> (r: (bool, usize))
        requires
            self@.wf(),
            self@.in_bounds(x as int, y as int),
        ensures
            r.0 <==> (p == WallPosition::Bottom || p == WallPosition::Top),
            r.0 ==> r.1 < self@.walls_h.len(),
            !r.0 ==> r.1 < self@.walls_v.len(),
            p == WallPosition::Bottom ==> r.1 == self@.h_index(x as int, y as int),
            p == WallPosition::Top ==> r.1 == self@.h_index(x as int, y + 1),
            p == WallPosition::Left ==> r.1 == self@.v_index(x as int, y as int),
            p == WallPosition::Right ==> r.1 == self@.v_index(x + 1, y as int),
    {
        // The lengths of the arrays bound the slot indices.
        let _n_h = self.walls_h.len();
        let _n_v = self.walls_v.len();
        proof {
            let (w, d) = (self.width as int, self.depth as int);
            lemma_grid_index(x as int, y as int, w, d);
            lemma_grid_index(x as int, y + 1, w, d);
            lemma_grid_index(y as int, x as int, d, w);
            lemma_grid_index(y as int, x + 1, d, w);
            assert(d * (w + 1) == (w + 1) * d) by (nonlinear_arith);
            assert(d + 1 <= w * (d + 1)) by (nonlinear_arith)
                requires
                    w >= 1,
                    d >= 1,
            ;
            assert(w + 1 <= (w + 1) * d) by (nonlinear_arith)
                requires
                    w >= 1,
                    d >= 1,
            ;
        }
        match p {
            WallPosition::Bottom => (true, x * (self.depth + 1) + y),
            WallPosition::Top => (true, x * (self.depth + 1) + y + 1),
            WallPosition::Left => (false, y * (self.width + 1) + x),
            WallPosition::Right => (false, y * (self.width + 1) + x + 1),
        }
    }

    /// Returns the wall on side `p` of tile `(x, y)`, or `None` if there is none.
    ///
    /// The edge is shared with the neighbouring tile: the right side of `(x, y)`
    /// is the left side of `(x + 1, y)`, its top the bottom of `(x, y + 1)`.
    pub fn wall(&self, x: usize, y: usize, p: WallPosition) -> (r: &Option<WT>)
        requires
            self@.wf(),
            self@.in_bounds(x as int, y as int),
        ensures
            *r == self@.wall(x as int, y as int, p),
    {
        let (horizontal, i) = self.edge_slot(x, y, p);
        if horizontal {
            &self.walls_h[i]
        } else {
            &self.walls_v[i]
        }
    }

    /// Sets the wall on side `p` of tile `(x, y)`; `None` removes it.
    pub fn set_wall(&mut self, x: usize, y: usize, p: WallPosition, data: Option<WT>)
        requires
            old(self)@.wf(),
            old(self)@.in_bounds(x as int, y as int),
        ensures
            final(self)@ == old(self)@.with_wall(x as int, y as int, p, data),
            final(self)@.wf(),
    {
        let (horizontal, i) = self.edge_slot(x, y, p);
        if horizontal {
            self.walls_h.set(i, data);
        } else {
            self.walls_v.set(i, data);
        }
        proof {
            assert(self@ =~= old(self)@.with_wall(x as int, y as int, p, data));
        }
    }

    /// Sets the payload of tile `(x, y)`.
    pub fn set_floor_data(&mut self, x: usize, y: usize, data: FT)
        requires
            old(self)@.wf(),
            old(self)@.in_bounds(x as int, y as int),
        ensures
            final(self)@ == old(self)@.with_data(x as int, y as int, data),
    {
        let i = self.get_index(x, y);
        self.floor_data.set(i, data);
        proof {
            assert(self@ =~= old(self)@.with_data(x as int, y as int, data));
        }
    }

    /// Returns the payload of tile `(x, y)`.
    pub fn floor_data(&self, x: usize, y: usize) -> (r: &FT)
        requires
            self@.wf(),
            self@.in_bounds(x as int, y as int),
        ensures
            *r == self@.tile_data(x as int, y as int),
    {
        let i = self.get_index(x, y);
        &self.floor_data[i]
    }

    /// Whether the orthogonal step from tile `s` to the adjacent tile `e` is
    /// free of walls.
    fn is_step_possible(&self, s: (usize, usize), e: (usize, usize)) -> (r: bool)
        requires
            self@.wf(),
            self@.in_bounds(s.0 as int, s.1 as int),
            self@.in_bounds(e.0 as int, e.1 as int),
        ensures
            r == self@.step_open((s.0 as int, s.1 as int), (e.0 as int, e.1 as int)),
    {
        if e.1 == s.1 && e.0 == s.0 + 1 {
            self.wall(s.0, s.1, WallPosition::Right).is_none()
        } else if e.1 == s.1 && e.0 + 1 == s.0 {
            self.wall(s.0, s.1, WallPosition::Left).is_none()
        } else if e.0 == s.0 && e.1 == s.1 + 1 {
            self.wall(s.0, s.1, WallPosition::Top).is_none()
        } else if e.0 == s.0 && e.1 + 1 == s.1 {
            self.wall(s.0, s.1, WallPosition::Bottom).is_none()
        } else {
            false
        }
    }

    /// Returns true if a character can move from `start_pos` to `end_pos`.
    ///
    /// A move is possible if the two positions are the same, or if `end_pos`
    /// is inside the level, adjacent to `start_pos` (diagonals included), and
    /// no wall stands in the way.
    pub fn is_move_possible(&self, start_pos: (usize, usize), end_pos: (usize, usize)) -> (r: bool)
        requires
            self@.wf(),
            self@.in_bounds(start_pos.0 as int, start_pos.1 as int),
        ensures
            r == self@.move_possible(
                (start_pos.0 as int, start_pos.1 as int),
                (end_pos.0 as int, end_pos.1 as int),
            ),
    {
        if start_pos.0 == end_pos.0 && start_pos.1 == end_pos.1 {
            return true;
        }
        if end_pos.0 >= self.width || end_pos.1 >= self.depth {
            return false;
        }
        let near_x = end_pos.0 <= start_pos.0 + 1 && start_pos.0 <= end_pos.0 + 1;
        let near_y = end_pos.1 <= start_pos.1 + 1 && start_pos.1 <= end_pos.1 + 1;
        if !near_x || !near_y {
            false
        } else if end_pos.0 != start_pos.0 && end_pos.1 != start_pos.1 {
            let corner = (end_pos.0, start_pos.1);
            if self.is_step_possible(start_pos, corner) && self.is_step_possible(corner, end_pos) {
                true
            } else {
                let corner = (start_pos.0, end_pos.1);
                self.is_step_possible(start_pos, corner) && self.is_step_possible(corner, end_pos)
            }
        } else {
            self.is_step_possible(start_pos, end_pos)
        }
    }

    /// Puts a copy of `data` on every edge at the border of the level: below
    /// the first row, above the last, left of the first column and right of the
    /// last. Every other edge is left as it was.
    pub fn add_border_walls(&mut self, data: WT)
        requires
            old(self)@.wf(),
        ensures
            old(self)@.border_walls_added(final(self)@, data),
    {
        let depth = self.depth;
        let width = self.width;
        let mut x: usize = 0;
        while x < width
            invariant
                self@.wf(),
                x <= width,
                width == self@.width == old(self)@.width,
                depth == self@.depth == old(self)@.depth,
                self@.heights == old(self)@.heights,
                self@.data == old(self)@.data,
                self@.walls_v == old(self)@.walls_v,
                forall|xx: int, j: int|
                    0 <= xx < width && 0 <= j <= depth ==> if xx < x && (j == 0 || j == depth) {
                        holds_copy(#[trigger] self@.h_edge(xx, j), data)
                    } else {
                        self@.h_edge(xx, j) == old(self)@.h_edge(xx, j)
                    },
            decreases width - x,
        {
            let ghost before = self@;
            self.set_wall(x, 0, WallPosition::Bottom, Some(data.clone()));
            let ghost middle = self@;
            self.set_wall(x, depth - 1, WallPosition::Top, Some(data.clone()));
            proof {
                lemma_grid_index(x as int, 0, width as int, depth as int);
                lemma_grid_index(x as int, depth as int, width as int, depth as int);
                assert forall|xx: int, j: int|
                    0 <= xx < width && 0 <= j <= depth && !(xx == x && (j == 0 || j
                        == depth)) implies #[trigger] self@.h_edge(xx, j) == before.h_edge(
                    xx,
                    j,
                ) by {
                    lemma_grid_index(xx, j, width as int, depth as int);
                    if xx * (depth + 1) + j == x * (depth + 1) + 0 {
                        lemma_grid_index_injective(xx, j, x as int, 0, depth as int);
                    }
                    if xx * (depth + 1) + j == x * (depth + 1) + depth {
                        lemma_grid_index_injective(xx, j, x as int, depth as int, depth as int);
                    }
                }
            }
            x = x + 1;
        }
        let mut y: usize = 0;
        while y < depth
            invariant
                self@.wf(),
                y <= depth,
                width == self@.width == old(self)@.width,
                depth == self@.depth == old(self)@.depth,
                self@.heights == old(self)@.heights,
                self@.data == old(self)@.data,
                forall|xx: int, j: int|
                    0 <= xx < width && 0 <= j <= depth ==> if j == 0 || j == depth {
                        holds_copy(#[trigger] self@.h_edge(xx, j), data)
                    } else {
                        self@.h_edge(xx, j) == old(self)@.h_edge(xx, j)
                    },
                forall|i: int, yy: int|
                    0 <= i <= width && 0 <= yy < depth ==> if yy < y && (i == 0 || i == width) {
                        holds_copy(#[trigger] self@.v_edge(i, yy), data)
                    } else {
                        self@.v_edge(i, yy) == old(self)@.v_edge(i, yy)
                    },
            decreases depth - y,
        {
            let ghost before = self@;
            self.set_wall(0, y, WallPosition::Left, Some(data.clone()));
            let ghost middle = self@;
            self.set_wall(width - 1, y, WallPosition::Right, Some(data.clone()));
            proof {
                lemma_grid_index(y as int, 0, depth as int, width as int);
                lemma_grid_index(y as int, width as int, depth as int, width as int);
                assert((width + 1) * depth == depth * (width + 1)) by (nonlinear_arith);
                assert forall|xx: int, j: int| #[trigger]
                    self@.h_edge(xx, j) == before.h_edge(xx, j) by {}
                assert forall|i: int, yy: int|
                    0 <= i <= width && 0 <= yy < depth && !(yy == y && (i == 0 || i
                        == width)) implies #[trigger] self@.v_edge(i, yy) == before.v_edge(
                    i,
                    yy,
                ) by {
                    lemma_grid_index(yy, i, depth as int, width as int);
                    if yy * (width + 1) + i == y * (width + 1) + 0 {
                        lemma_grid_index_injective(yy, i, y as int, 0, width as int);
                    }
                    if yy * (width + 1) + i == y * (width + 1) + width {
                        lemma_grid_index_injective(yy, i, y as int, width as int, width as int);
                    }
                }
            }
            y = y + 1;
        }
    }

    /// Puts a copy of `data` on every edge between two tiles whose elevations
    /// differ by `threshold` or more.
    ///
    /// Every edge between two tiles is looked at, once, from the tile below or
    /// left of it; the outer edges are left to `add_border_walls`. Every edge
    /// that is not given a wall is left as it was.
    pub fn add_cliff_walls(&mut self, threshold: i32, data: WT)
        requires
            old(self)@.wf(),
        ensures
            old(self)@.cliff_walls_added(final(self)@, threshold, data),
    {
        let width = self.width;
        let depth = self.depth;
        let ghost start = self@;
        let mut x: usize = 0;
        while x < width
            invariant
                self@.wf(),
                x <= width,
                width == self@.width == start.width,
                depth == self@.depth == start.depth,
                start == old(self)@,
                self@.heights == start.heights,
                self@.data == start.data,
                forall|xx: int, j: int|
                    0 <= xx < width && 0 <= j <= depth ==> if start.inner_h_edge(xx, j)
                        && xx < x && start.cliff_between((xx, j - 1), (xx, j), threshold) {
                        holds_copy(#[trigger] self@.h_edge(xx, j), data)
                    } else {
                        self@.h_edge(xx, j) == start.h_edge(xx, j)
                    },
                forall|i: int, yy: int|
                    0 <= i <= width && 0 <= yy < depth ==> if start.inner_v_edge(i, yy) && i
                        - 1 < x && start.cliff_between((i - 1, yy), (i, yy), threshold) {
                        holds_copy(#[trigger] self@.v_edge(i, yy), data)
                    } else {
                        self@.v_edge(i, yy) == start.v_edge(i, yy)
                    },
            decreases width - x,
        {
            let mut y: usize = 0;
            while y < depth
                invariant
                    self@.wf(),
                    x < width,
                    y <= depth,
                    width == self@.width == start.width,
                    depth == self@.depth == start.depth,
                    self@.heights == start.heights,
                    self@.data == start.data,
                    forall|xx: int, j: int|
                        0 <= xx < width && 0 <= j <= depth ==> if start.inner_h_edge(xx, j) && (
                        xx < x || (xx == x && j - 1 < y)) && start.cliff_between(
                            (xx, j - 1),
                            (xx, j),
                            threshold,
                        ) {
                            holds_copy(#[trigger] self@.h_edge(xx, j), data)
                        } else {
                            self@.h_edge(xx, j) == start.h_edge(xx, j)
                        },
                    forall|i: int, yy: int|
                        0 <= i <= width && 0 <= yy < depth ==> if start.inner_v_edge(i, yy) && (i
                            - 1 < x || (i - 1 == x && yy < y)) && start.cliff_between(
                            (i - 1, yy),
                            (i, yy),
                            threshold,
                        ) {
                            holds_copy(#[trigger] self@.v_edge(i, yy), data)
                        } else {
                            self@.v_edge(i, yy) == start.v_edge(i, yy)
                        },
                decreases depth - y,
            {
                let z = self.z(x, y) as i64;
                let ghost before = self@;
                if y + 1 < depth {
                    let d_top = z - self.z(x, y + 1) as i64;
                    if d_top >= threshold as i64 || -d_top >= threshold as i64 {
                        self.set_wall(x, y, WallPosition::Top, Some(data.clone()));
                    }
                }
                let ghost middle = self@;
                if x + 1 < width {
                    let d_right = z - self.z(x + 1, y) as i64;
                    if d_right >= threshold as i64 || -d_right >= threshold as i64 {
                        self.set_wall(x, y, WallPosition::Right, Some(data.clone()));
                    }
                }
                proof {
                    lemma_grid_index(x as int, y + 1, width as int, depth as int);
                    lemma_grid_index(y as int, x + 1, depth as int, width as int);
                    assert((width + 1) * depth == depth * (width + 1)) by (nonlinear_arith);
                    assert forall|xx: int, j: int|
                        0 <= xx < width && 0 <= j <= depth && !(xx == x && j == y + 1) implies #[trigger]
                        self@.h_edge(xx, j) == before.h_edge(xx, j) by {
                        lemma_grid_index(xx, j, width as int, depth as int);
                        if xx * (depth + 1) + j == x * (depth + 1) + y + 1 {
                            lemma_grid_index_injective(xx, j, x as int, y + 1, depth as int);
                        }
                    }
                    assert forall|i: int, yy: int|
                        0 <= i <= width && 0 <= yy < depth && !(i == x + 1 && yy == y) implies #[trigger]
                        self@.v_edge(i, yy) == before.v_edge(i, yy) by {
                        lemma_grid_index(yy, i, depth as int, width as int);
                        if yy * (width + 1) + i == y * (width + 1) + x + 1 {
                            lemma_grid_index_injective(yy, i, y as int, x + 1, width as int);
                        }
                    }
                    assert(self@.h_edge(x as int, y + 1) == middle.h_edge(x as int, y + 1));
                }
                y = y + 1;
            }
            x = x + 1;
        }
    }
}

} // verus!
