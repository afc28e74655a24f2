use vstd::prelude::*;

use crate::level::{Level, LevelView};

verus! {

/// Cells of the visibility window that one ray marks, from its sample `k` on,
/// when the last tile it reached is `prev`.
///
/// A ray is the list of offsets from the observer at `pos` that it passes
/// through, one per unit step outwards, each rounded to the nearest tile. A
/// sample outside the level on the negative side, or on the tile the ray
/// already stands on, is passed over. Otherwise the ray moves on to the sampled
/// tile if the level allows that move, and marks it if it lies in the window of
/// `radius` tiles around the observer; if the move is not possible the ray stops
/// there for good. Cell `(i, j)` of the window is the tile at offset
/// `(i - radius, j - radius)` from the observer.
pub open spec fn ray_marks<FT, WT>(
    l: LevelView<FT, WT>,
    pos: (int, int),
    radius: int,
    ray: Seq<(isize, isize)>,
    k: int,
    prev: (int, int),
) -> Set<(int, int)>
    decreases ray.len() - k,
{
    if k < 0 || k >= ray.len() {
        Set::empty()
    } else {
        let d = ray[k];
        let t = (pos.0 + d.0, pos.1 + d.1);
        if t.0 < 0 || t.1 < 0 || t == prev {
            ray_marks(l, pos, radius, ray, k + 1, prev)
        } else if !l.move_possible(prev, t) {
            Set::empty()
        } else if -radius <= d.0 <= radius && -radius <= d.1 <= radius {
            ray_marks(l, pos, radius, ray, k + 1, t).insert((d.0 + radius, d.1 + radius))
        } else {
            ray_marks(l, pos, radius, ray, k + 1, prev)
        }
    }
}

/// Cells marked by the first `n` rays of `rays`, each cast from `pos`.
pub open spec fn fan_marks<FT, WT>(
    l: LevelView<FT, WT>,
    pos: (int, int),
    radius: int,
    rays: Seq<Seq<(isize, isize)>>,
    n: int,
) -> Set<(int, int)>
    decreases n,
{
    if n <= 0 {
        Set::empty()
    } else {
        fan_marks(l, pos, radius, rays, n - 1).union(ray_marks(l, pos, radius, rays[n - 1], 0, pos))
    }
}

/// Whether cell `(i, j)` of the visibility window is visible: the observer's
/// own cell always is, any other cell when some ray marks it.
pub open spec fn visible_cell<FT, WT>(
    l: LevelView<FT, WT>,
    pos: (int, int),
    radius: int,
    rays: Seq<Seq<(isize, isize)>>,
    i: int,
    j: int,
) -> bool {
    (i == radius && j == radius) || fan_marks(l, pos, radius, rays, rays.len() as int).contains(
        (i, j),
    )
}

/// The rays of a list, each as the sequence of its offsets.
pub open spec fn rays_view(rays: &Vec<Vec<(isize, isize)>>) -> Seq<Seq<(isize, isize)>> {
    rays@.map_values(|r: Vec<(isize, isize)>| r@)
}

/// Where coordinate `c` falls in a window of `radius` cells on each side of
/// the observer's coordinate `p`: `c - p + radius`, if that lies in
/// `0..=2 * radius`.
pub(crate) fn window_offset(p: usize, c: usize, radius: usize) -> (r: Option<usize>)
    requires
        2 * radius < usize::MAX,
    ensures
        r matches Some(i) ==> i == c - p + radius,
        r is Some <==> 0 <= c - p + radius <= 2 * radius,
{
    if c >= p {
        if c - p > radius {
            None
        } else {
            Some(radius + (c - p))
        }
    } else {
        if p - c > radius {
            None
        } else {
            Some(radius - (p - c))
        }
    }
}

/// The visibility window around an observer, asked by absolute tile
/// coordinates.
pub struct Visibility {
    pos: (usize, usize),
    radius: usize,
    matrix: Vec<Vec<bool>>,
}

impl Visibility {
    /// The observer's tile.
    pub closed spec fn center(&self) -> (int, int) {
        (self.pos.0 as int, self.pos.1 as int)
    }

    /// How many tiles the window reaches on each side of the observer.
    pub closed spec fn reach(&self) -> int {
        self.radius as int
    }

    /// Cell `(i, j)` of the window: the tile at offset `(i - reach, j - reach)`
    /// from the observer.
    pub closed spec fn cell(&self, i: int, j: int) -> bool {
        self.matrix@[i]@[j]
    }

    /// The matrix is square, of side `2 * reach + 1`.
    pub closed spec fn wf(&self) -> bool {
        &&& self.matrix.len() == 2 * self.radius + 1
        &&& forall|i: int| 0 <= i < self.matrix.len() ==> (#[trigger] self.matrix@[i]).len() == 2
            * self.radius + 1
    }

    /// Whether tile `(x, y)` lies in the window and is seen from the observer.
    pub open spec fn sees(&self, x: int, y: int) -> bool {
        let i = x - self.center().0 + self.reach();
        let j = y - self.center().1 + self.reach();
        0 <= i <= 2 * self.reach() && 0 <= j <= 2 * self.reach() && self.cell(i, j)
    }

    /// Returns true if tile `(x, y)` can be seen; a tile outside the window,
    /// however far, cannot.
    pub fn is_visible(&self, x: usize, y: usize) -> (r: bool)
        requires
            self.wf(),
        ensures
            r == self.sees(x as int, y as int),
    {
        // The side of the window bounds its indices.
        let _side = self.matrix.len();
        let i = window_offset(self.pos.0, x, self.radius);
        let j = window_offset(self.pos.1, y, self.radius);
        match (i, j) {
            (Some(i), Some(j)) => self.matrix[i][j],
            _ => false,
        }
    }
}

impl<FT: Default + Clone, WT: Default + Clone> Level<FT, WT> {
    /// Returns the visibility window of `radius` tiles around `pos`: a square
    /// matrix of side `2 * radius + 1` where cell `[i][j]` tells whether the
    /// tile at offset `(i - radius, j - radius)` from `pos` can be seen.
    ///
    /// The window is computed by marching `rays` outwards from `pos`, each given
    /// as its list of rounded offsets (see `ray_marks`); a ray stops at the first
    /// move that the level does not allow. The observer's own tile is always
    /// visible.
    pub fn visible_from(
        &self,
        pos: (usize, usize),
        radius: usize,
        rays: &Vec<Vec<(isize, isize)>>,
    ) -> (r: Vec<Vec<bool>>)
        requires
            self@.wf(),
            self@.in_bounds(pos.0 as int, pos.1 as int),
            2 * radius + 1 <= usize::MAX,
        ensures
            r.len() == 2 * radius + 1,
            forall|i: int| 0 <= i < r.len() ==> (#[trigger] r[i]).len() == 2 * radius + 1,
            r[radius as int][radius as int],
            forall|i: int, j: int|
                0 <= i < r.len() && 0 <= j < r.len() ==> #[trigger] r[i][j] == visible_cell(
                    self@,
                    (pos.0 as int, pos.1 as int),
                    radius as int,
                    rays_view(rays),
                    i,
                    j,
                ),
    {
        let ghost l = self@;
        let ghost p = (pos.0 as int, pos.1 as int);
        let ghost rv = rays_view(rays);
        let n = 2 * radius + 1;
        // Bound the coordinates of every tile of the level.
        let width = self.width();
        let depth = self.depth();
        let mut res: Vec<Vec<bool>> = Vec::new();
        while res.len() < n
            invariant
                res.len() <= n,
                forall|i: int| 0 <= i < res.len() ==> (#[trigger] res[i]).len() == n,
                forall|i: int, j: int| 0 <= i < res.len() && 0 <= j < n ==> !#[trigger] res[i][j],
            decreases n - res.len(),
        {
            let mut row: Vec<bool> = Vec::new();
            while row.len() < n
                invariant
                    row.len() <= n,
                    forall|j: int| 0 <= j < row.len() ==> !#[trigger] row[j],
                decreases n - row.len(),
            {
                row.push(false);
            }
            res.push(row);
        }
        // The observer's own tile.
        res[radius][radius] = true;
        let mut ri: usize = 0;
        while ri < rays.len()
            invariant
                self@ == l,
                l.wf(),
                width == l.width,
                depth == l.depth,
                p == (pos.0 as int, pos.1 as int),
                l.in_bounds(p.0, p.1),
                rv == rays_view(rays),
                n == 2 * radius + 1,
                res.len() == n,
                forall|i: int| 0 <= i < n ==> (#[trigger] res[i]).len() == n,
                0 <= ri <= rays.len(),
                forall|i: int, j: int|
                    0 <= i < n && 0 <= j < n ==> #[trigger] res[i][j] == ((i == radius && j
                        == radius) || fan_marks(l, p, radius as int, rv, ri as int).contains((i, j))),
            decreases rays.len() - ri,
        {
            let ray = &rays[ri];
            assert(ray@ == rv[ri as int]);
            let ghost before = res@;
            let ghost done: Set<(int, int)> = Set::empty();
            let mut k: usize = 0;
            let mut prev: (usize, usize) = pos;
            while k < ray.len()
                invariant
                    self@ == l,
                    l.wf(),
                    width == l.width,
                    depth == l.depth,
                    p == (pos.0 as int, pos.1 as int),
                    n == 2 * radius + 1,
                    res.len() == n,
                    forall|i: int| 0 <= i < n ==> (#[trigger] res[i]).len() == n,
                    0 <= k <= ray.len(),
                    l.in_bounds(prev.0 as int, prev.1 as int),
                    ray_marks(l, p, radius as int, ray@, 0, p) == done.union(
                        ray_marks(l, p, radius as int, ray@, k as int, (prev.0 as int, prev.1 as int)),
                    ),
                    forall|i: int, j: int|
                        0 <= i < n && 0 <= j < n ==> #[trigger] res[i][j] == (before[i][j]
                            || done.contains((i, j))),
                decreases ray.len() - k,
            {
                let d = ray[k];
                let ghost pv = (prev.0 as int, prev.1 as int);
                let tx = pos.0.checked_add_signed(d.0);
                let ty = pos.1.checked_add_signed(d.1);
                if d.0 < 0 && tx.is_none() || d.1 < 0 && ty.is_none() {
                    // The sample lies beyond the level's lower edge: pass it over.
                    assert(ray_marks(l, p, radius as int, ray@, k as int, pv) == ray_marks(
                        l,
                        p,
                        radius as int,
                        ray@,
                        k + 1,
                        pv,
                    ));
                    k = k + 1;
                } else if tx.is_none() || ty.is_none() {
                    // The sample lies beyond the level's upper edge: the ray
                    // cannot move there, and stops.
                    assert(ray_marks(l, p, radius as int, ray@, k as int, pv) =~= Set::empty());
                    k = ray.len();
                } else {
                    let t = (tx.unwrap(), ty.unwrap());
                    let ghost tv = (t.0 as int, t.1 as int);
                    if t.0 == prev.0 && t.1 == prev.1 {
                        assert(ray_marks(l, p, radius as int, ray@, k as int, pv) == ray_marks(
                            l,
                            p,
                            radius as int,
                            ray@,
                            k + 1,
                            pv,
                        ));
                        k = k + 1;
                    } else if !self.is_move_possible(prev, t) {
                        // Something stands in the way: the ray stops for good.
                        assert(ray_marks(l, p, radius as int, ray@, k as int, pv) =~= Set::empty());
                        k = ray.len();
                    } else {
                        let ci = radius.checked_add_signed(d.0);
                        let cj = radius.checked_add_signed(d.1);
                        if ci.is_some() && cj.is_some() && ci.unwrap() < n && cj.unwrap() < n {
                            let (i, j) = (ci.unwrap(), cj.unwrap());
                            let ghost marked = res@;
                            res[i][j] = true;
                            proof {
                                let rest = ray_marks(l, p, radius as int, ray@, k + 1, tv);
                                assert(ray_marks(l, p, radius as int, ray@, k as int, pv)
                                    == rest.insert((i as int, j as int)));
                                assert(done.union(rest.insert((i as int, j as int))) =~= done.insert(
                                    (i as int, j as int),
                                ).union(rest));
                                done = done.insert((i as int, j as int));
                                assert forall|a: int, b: int|
                                    0 <= a < n && 0 <= b < n implies #[trigger] res[a][b] == (
                                    before[a][b] || done.contains((a, b))) by {
                                    if a != i {
                                        assert(res[a] == marked[a]);
                                    }
                                }
                            }
                            prev = t;
                        } else {
                            assert(ray_marks(l, p, radius as int, ray@, k as int, pv) == ray_marks(
                                l,
                                p,
                                radius as int,
                                ray@,
                                k + 1,
                                pv,
                            ));
                        }
                        k = k + 1;
                    }
                }
            }
            proof {
                assert(ray_marks(l, p, radius as int, ray@, 0, p) =~= done);
            }
            ri = ri + 1;
        }
        res
    }

    /// Returns the visibility window of `visible_from` as a predicate on
    /// absolute tile coordinates.
    pub fn visibility(
        &self,
        pos: (usize, usize),
        radius: usize,
        rays: &Vec<Vec<(isize, isize)>>,
    ) -> (r: Visibility)
        requires
            self@.wf(),
            self@.in_bounds(pos.0 as int, pos.1 as int),
            2 * radius + 1 <= usize::MAX,
        ensures
            r.wf(),
            r.center() == (pos.0 as int, pos.1 as int),
            r.reach() == radius,
            forall|i: int, j: int|
                0 <= i <= 2 * radius && 0 <= j <= 2 * radius ==> #[trigger] r.cell(i, j)
                    == visible_cell(
                    self@,
                    (pos.0 as int, pos.1 as int),
                    radius as int,
                    rays_view(rays),
                    i,
                    j,
                ),
    {
        let matrix = self.visible_from(pos, radius, rays);
        Visibility { pos, radius, matrix }
    }
}

} // verus!
