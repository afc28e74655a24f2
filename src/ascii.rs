use vstd::prelude::*;
use vstd::string::StringExecFns;

use crate::level::{Level, LevelView};
use crate::visibility::{rays_view, visible_cell, window_offset};
use crate::wall::WallPosition;

verus! {

/// Glyph for the wall on the left or right side of a tile.
pub open spec fn side_text<WT>(w: Option<WT>) -> Seq<char> {
    if w is Some {
        "|"@
    } else {
        " "@
    }
}

/// Glyph for the walls above and below a tile, in one character.
pub open spec fn across_text<WT>(top: Option<WT>, bottom: Option<WT>) -> Seq<char> {
    if top is Some && bottom is Some {
        "="@
    } else if top is Some {
        "_"@
    } else if bottom is Some {
        "-"@
    } else {
        " "@
    }
}

/// The three characters that stand for tile `(x, y)`: a marker for the
/// observer, a block for a tile that cannot be seen, and otherwise its walls.
pub open spec fn tile_text<FT, WT>(
    l: LevelView<FT, WT>,
    pos: (int, int),
    radius: int,
    rays: Seq<Seq<(isize, isize)>>,
    x: int,
    y: int,
) -> Seq<char> {
    let i = x - pos.0 + radius;
    let j = y - pos.1 + radius;
    if x == pos.0 && y == pos.1 {
        " @ "@
    } else if !(0 <= i <= 2 * radius && 0 <= j <= 2 * radius) || !visible_cell(
        l,
        pos,
        radius,
        rays,
        i,
        j,
    ) {
        "###"@
    } else {
        side_text(l.wall(x, y, WallPosition::Left)) + across_text(
            l.wall(x, y, WallPosition::Top),
            l.wall(x, y, WallPosition::Bottom),
        ) + side_text(l.wall(x, y, WallPosition::Right))
    }
}

/// The first `n` tiles of row `y`.
pub open spec fn row_text<FT, WT>(
    l: LevelView<FT, WT>,
    pos: (int, int),
    radius: int,
    rays: Seq<Seq<(isize, isize)>>,
    y: int,
    n: int,
) -> Seq<char>
    decreases n,
{
    if n <= 0 {
        Seq::empty()
    } else {
        row_text(l, pos, radius, rays, y, n - 1) + tile_text(l, pos, radius, rays, n - 1, y)
    }
}

/// The first `m` rows of the level, each ended by a newline.
pub open spec fn level_text<FT, WT>(
    l: LevelView<FT, WT>,
    pos: (int, int),
    radius: int,
    rays: Seq<Seq<(isize, isize)>>,
    m: int,
) -> Seq<char>
    decreases m,
{
    if m <= 0 {
        Seq::empty()
    } else {
        level_text(l, pos, radius, rays, m - 1) + row_text(l, pos, radius, rays, m - 1, l.width as int)
            + "\n"@
    }
}

impl<FT: Default + Clone, WT: Default + Clone> Level<FT, WT> {
    /// Appends the glyphs of the walls around tile `(x, y)`.
    fn push_walls(&self, res: &mut String, x: usize, y: usize)
        requires
            self@.wf(),
            self@.in_bounds(x as int, y as int),
        ensures
            final(res)@ == old(res)@ + side_text(self@.wall(x as int, y as int, WallPosition::Left))
                + across_text(
                self@.wall(x as int, y as int, WallPosition::Top),
                self@.wall(x as int, y as int, WallPosition::Bottom),
            ) + side_text(self@.wall(x as int, y as int, WallPosition::Right)),
    {
        let ghost start = res@;
        if self.wall(x, y, WallPosition::Left).is_some() {
            res.append("|");
        } else {
            res.append(" ");
        }
        let top = self.wall(x, y, WallPosition::Top).is_some();
        let bottom = self.wall(x, y, WallPosition::Bottom).is_some();
        if top && bottom {
            res.append("=");
        } else if top {
            res.append("_");
        } else if bottom {
            res.append("-");
        } else {
            res.append(" ");
        }
        if self.wall(x, y, WallPosition::Right).is_some() {
            res.append("|");
        } else {
            res.append(" ");
        }
        proof {
            assert(res@ =~= start + side_text(self@.wall(x as int, y as int, WallPosition::Left))
                + across_text(
                self@.wall(x as int, y as int, WallPosition::Top),
                self@.wall(x as int, y as int, WallPosition::Bottom),
            ) + side_text(self@.wall(x as int, y as int, WallPosition::Right)));
        }
    }

    /// Text picture of the level as seen from `pos` with visibility `radius`,
    /// mostly for debugging: one line per row, `y` ascending, three characters
    /// per tile (see `tile_text`).
    pub fn to_ascii(
        &self,
        pos: (usize, usize),
        radius: usize,
        rays: &Vec<Vec<(isize, isize)>>,
    ) -> (r: String)
        requires
            self@.wf(),
            self@.in_bounds(pos.0 as int, pos.1 as int),
            2 * radius + 1 <= usize::MAX,
        ensures
            r@ == level_text(
                self@,
                (pos.0 as int, pos.1 as int),
                radius as int,
                rays_view(rays),
                self@.depth as int,
            ),
    {
        let ghost p = (pos.0 as int, pos.1 as int);
        let ghost rv = rays_view(rays);
        let mut res = String::new();
        let visible = self.visible_from(pos, radius, rays);
        let width = self.width();
        let depth = self.depth();
        let mut y: usize = 0;
        while y < depth
            invariant
                self@.wf(),
                width == self@.width,
                depth == self@.depth,
                y <= depth,
                2 * radius < usize::MAX,
                visible.len() == 2 * radius + 1,
                forall|i: int| 0 <= i < visible.len() ==> (#[trigger] visible[i]).len() == 2 * radius
                    + 1,
                forall|i: int, j: int|
                    0 <= i < visible.len() && 0 <= j < visible.len() ==> #[trigger] visible[i][j]
                        == visible_cell(self@, p, radius as int, rv, i, j),
                p == (pos.0 as int, pos.1 as int),
                rv == rays_view(rays),
                res@ == level_text(self@, p, radius as int, rv, y as int),
            decreases depth - y,
        {
            let mut x: usize = 0;
            while x < width
                invariant
                    self@.wf(),
                    width == self@.width,
                    depth == self@.depth,
                    y < depth,
                    x <= width,
                    2 * radius < usize::MAX,
                    visible.len() == 2 * radius + 1,
                    forall|i: int| 0 <= i < visible.len() ==> (#[trigger] visible[i]).len() == 2
                        * radius + 1,
                    forall|i: int, j: int|
                        0 <= i < visible.len() && 0 <= j < visible.len() ==> #[trigger] visible[i][j]
                            == visible_cell(self@, p, radius as int, rv, i, j),
                    p == (pos.0 as int, pos.1 as int),
                    rv == rays_view(rays),
                    res@ == level_text(self@, p, radius as int, rv, y as int) + row_text(
                        self@,
                        p,
                        radius as int,
                        rv,
                        y as int,
                        x as int,
                    ),
                decreases width - x,
            {
                let ghost before = res@;
                if x == pos.0 && y == pos.1 {
                    res.append(" @ ");
                } else {
                    let i = window_offset(pos.0, x, radius);
                    let j = window_offset(pos.1, y, radius);
                    match (i, j) {
                        (Some(i), Some(j)) => {
                            if visible[i][j] {
                                self.push_walls(&mut res, x, y);
                            } else {
                                res.append("###");
                            }
                        },
                        _ => {
                            res.append("###");
                        },
                    }
                }
                proof {
                    assert(res@ =~= level_text(self@, p, radius as int, rv, y as int) + row_text(
                        self@,
                        p,
                        radius as int,
                        rv,
                        y as int,
                        x + 1,
                    ));
                }
                x = x + 1;
            }
            res.append("\n");
            y = y + 1;
        }
        res
    }
}

} // verus!
