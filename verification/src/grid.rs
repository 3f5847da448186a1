//! The grid of cells and the patterns of particles it can start with.

use crate::config::GridType;
use crate::math::{dist, isqrt_u128, lemma_dist_in_grid, lemma_isqrt_exists, sq_dist};
use crate::random::random_below;
use vstd::prelude::*;

verus! {

/// One cell of the grid.
#[derive(Clone, Copy, Debug, PartialEq, Eq, Structural)]
pub struct Particle {
    /// Whether a particle stands on this cell, stuck or on its way.
    pub filled: bool,
    /// The rank at which the particle of this cell stuck; 0 for a seed.
    pub id: usize,
}

/// A rectangle of cells, stored row by row.
#[derive(Clone, Debug)]
pub struct Grid {
    /// The cells: position `(x, y)` is at index `x + y * width`.
    pub cells: Vec<Particle>,
    /// The number of columns.
    pub width: usize,
    /// The number of rows.
    pub height: usize,
}

/// What a grid holds, as mathematical values.
pub struct Board {
    /// The cells, row by row.
    pub cells: Seq<Particle>,
    /// The number of columns.
    pub width: int,
    /// The number of rows.
    pub height: int,
}

impl View for Grid {
    type V = Board;

    open spec fn view(&self) -> Board {
        Board { cells: self.cells@, width: self.width as int, height: self.height as int }
    }
}

/// The `k`-th of the eight positions around `(x, y)`, row by row from the
/// upper left.
pub open spec fn neighbor(x: int, y: int, k: int) -> (int, int) {
    if k == 0 {
        (x - 1, y - 1)
    } else if k == 1 {
        (x, y - 1)
    } else if k == 2 {
        (x + 1, y - 1)
    } else if k == 3 {
        (x - 1, y)
    } else if k == 4 {
        (x + 1, y)
    } else if k == 5 {
        (x - 1, y + 1)
    } else if k == 6 {
        (x, y + 1)
    } else {
        (x + 1, y + 1)
    }
}

impl Board {
    /// The grid holds as many cells as its sides say, at least one, and no
    /// more than can be counted.
    pub open spec fn ok(self) -> bool {
        &&& self.width > 0
        &&& self.height > 0
        &&& self.cells.len() == self.width * self.height
        &&& self.width * self.height <= usize::MAX
    }

    /// The index of the cell at `(x, y)`.
    pub open spec fn index(self, x: int, y: int) -> int {
        cell_index(self.width, x, y)
    }

    /// `(x, y)` is a position of the grid.
    pub open spec fn has(self, x: int, y: int) -> bool {
        in_grid(self.width, self.height, x, y)
    }

    /// The grid with the cell at index `i` replaced by `p`.
    pub open spec fn with(self, i: int, p: Particle) -> Board {
        Board { cells: self.cells.update(i, p), ..self }
    }

    /// The grid with the cell at index `i` filled or emptied.
    pub open spec fn with_fill(self, i: int, filled: bool) -> Board {
        self.with(i, Particle { filled: filled, id: self.cells[i].id })
    }

    /// `(x, y)` is a position of the grid and its cell is filled.
    pub open spec fn filled_at(self, x: int, y: int) -> bool {
        self.has(x, y) && self.cells[self.index(x, y)].filled
    }

    /// `(x, y)` is a position of the grid and its cell is empty.
    pub open spec fn free_at(self, x: int, y: int) -> bool {
        self.has(x, y) && !self.cells[self.index(x, y)].filled
    }

    /// The `k`-th position around `(x, y)` is on the grid and filled.
    pub open spec fn filled_neighbor(self, x: int, y: int, k: int) -> bool {
        self.filled_at(neighbor(x, y, k).0, neighbor(x, y, k).1)
    }

    /// The `k`-th position around `(x, y)` is on the grid and empty.
    pub open spec fn free_neighbor(self, x: int, y: int, k: int) -> bool {
        self.free_at(neighbor(x, y, k).0, neighbor(x, y, k).1)
    }

    /// A particle at `(x, y)` touches a filled cell: one of the eight
    /// positions around it is on the grid and filled.
    pub open spec fn touches(self, x: int, y: int) -> bool {
        exists|k: int| 0 <= k < 8 && #[trigger] self.filled_neighbor(x, y, k)
    }

    /// A particle at `(x, y)` can move: one of the eight positions around it
    /// is on the grid and empty.
    pub open spec fn can_move(self, x: int, y: int) -> bool {
        exists|k: int| 0 <= k < 8 && #[trigger] self.free_neighbor(x, y, k)
    }

    /// `to` is one of the eight positions around `(x, y)`, on the grid and
    /// empty.
    pub open spec fn is_step(self, x: int, y: int, to: (usize, usize)) -> bool {
        exists|k: int|
            0 <= k < 8 && #[trigger] self.free_neighbor(x, y, k) && neighbor(x, y, k) == (
                to.0 as int,
                to.1 as int,
            )
    }

    /// The empty positions of the grid among the first `n` around `(x, y)`,
    /// in their order.
    pub open spec fn free_among(self, x: int, y: int, n: int) -> Seq<(usize, usize)>
        decreases n,
    {
        if n <= 0 {
            Seq::empty()
        } else if self.free_neighbor(x, y, n - 1) {
            self.free_among(x, y, n - 1).push(
                (neighbor(x, y, n - 1).0 as usize, neighbor(x, y, n - 1).1 as usize),
            )
        } else {
            self.free_among(x, y, n - 1)
        }
    }

    /// The grid has more than one cell.
    pub open spec fn roomy(self) -> bool {
        self.width >= 2 || self.height >= 2
    }

    /// Which cells are filled, in the order of the cells.
    pub open spec fn fills(self) -> Seq<bool> {
        Seq::new(self.cells.len(), |i: int| self.cells[i].filled)
    }

    /// The grid is a `width` by `height` grid that holds the particles of
    /// the pattern `kind` and no others, none of them with a rank. For
    /// `RandFive` the particles are five positions of the grid, which need
    /// not differ.
    pub open spec fn sown(self, kind: GridType, width: int, height: int) -> bool {
        &&& self.ok()
        &&& self.width == width
        &&& self.height == height
        &&& forall|i: int| 0 <= i < self.cells.len() ==> (#[trigger] self.cells[i]).id == 0
        &&& kind != GridType::RandFive ==> patterned(self.fills(), kind, width, height)
        &&& kind == GridType::RandFive ==> scattered(self.fills(), width, height)
    }
}

/// A `width` by `height` grid can be made with the pattern `kind`: it has
/// cells, no more than can be counted, and room for the ring if the pattern
/// is `Circle`.
pub open spec fn sowable(kind: GridType, width: int, height: int) -> bool {
    &&& width > 0
    &&& height > 0
    &&& width * height <= usize::MAX
    &&& kind == GridType::Circle ==> ring_radius(width, height) < width / 2 && ring_radius(
        width,
        height,
    ) < height / 2
}

/// The index of position `(x, y)` in a grid of `width` columns.
pub open spec fn cell_index(width: int, x: int, y: int) -> int {
    x + y * width
}

/// `(x, y)` is a position of a `width` by `height` grid.
pub open spec fn in_grid(width: int, height: int, x: int, y: int) -> bool {
    0 <= x < width && 0 <= y < height
}

/// The number of filled cells among `cells`.
pub open spec fn count_filled(cells: Seq<Particle>) -> nat
    decreases cells.len(),
{
    if cells.len() == 0 {
        0
    } else {
        count_filled(cells.drop_last()) + if cells.last().filled {
            1nat
        } else {
            0nat
        }
    }
}

/// The radius of the ring that the `Circle` pattern draws.
pub open spec fn ring_radius(width: int, height: int) -> int {
    (if width <= height {
        width
    } else {
        height
    }) / 10
}

/// Whether the pattern `kind` puts a particle on `(x, y)` of a `width` by
/// `height` grid. `RandFive` has no fixed cells and puts none here.
pub open spec fn seeded(kind: GridType, width: int, height: int, x: int, y: int) -> bool {
    match kind {
        GridType::Center => x == width / 2 && y == height / 2,
        GridType::BottomEdge => y == height - 1,
        GridType::AllEdges => y == 0 || y == height - 1 || x == 0 || x == width - 1,
        GridType::FourDots => (x == width / 3 || x == 2 * width / 3) && (y == height / 3 || y == 2
            * height / 3),
        GridType::RandFive => false,
        GridType::Circle => dist(x, y, width / 2, height / 2) == ring_radius(width, height),
    }
}

/// `(x, y)` is one of the first `n` positions of `dots`.
pub open spec fn among(dots: Seq<(usize, usize)>, n: int, x: int, y: int) -> bool {
    exists|k: int| 0 <= k < n && (#[trigger] dots[k]).0 == x && dots[k].1 == y
}

/// All of `dots` are positions of a `width` by `height` grid.
pub open spec fn dots_in_grid(dots: Seq<(usize, usize)>, width: int, height: int) -> bool {
    forall|k: int|
        0 <= k < dots.len() ==> in_grid(width, height, (#[trigger] dots[k]).0 as int, dots[k].1 as int)
}

/// `cells` is a `width` by `height` layout whose filled cells are those of
/// `dots`.
pub open spec fn dotted(cells: Seq<bool>, width: int, height: int, dots: Seq<(usize, usize)>) -> bool {
    &&& cells.len() == width * height
    &&& forall|x: int, y: int|
        in_grid(width, height, x, y) ==> #[trigger] cells[cell_index(width, x, y)] == among(
            dots,
            dots.len() as int,
            x,
            y,
        )
}

/// `cells` is a `width` by `height` layout whose filled cells are those at
/// distance `radius` from the centre.
pub open spec fn ringed(cells: Seq<bool>, width: int, height: int, radius: int) -> bool {
    &&& cells.len() == width * height
    &&& forall|x: int, y: int|
        in_grid(width, height, x, y) ==> #[trigger] cells[cell_index(width, x, y)] == (dist(
            x,
            y,
            width / 2,
            height / 2,
        ) == radius)
}

/// `cells` is a `width` by `height` layout whose filled cells are five
/// positions of the grid, which need not differ.
pub open spec fn scattered(cells: Seq<bool>, width: int, height: int) -> bool {
    exists|dots: Seq<(usize, usize)>|
        dots.len() == 5 && dots_in_grid(dots, width, height) && #[trigger] dotted(
            cells,
            width,
            height,
            dots,
        )
}

/// `cells` is the `width` by `height` layout of the pattern `kind`.
pub open spec fn patterned(cells: Seq<bool>, kind: GridType, width: int, height: int) -> bool {
    &&& cells.len() == width * height
    &&& forall|x: int, y: int|
        in_grid(width, height, x, y) ==> #[trigger] cells[cell_index(width, x, y)] == seeded(
            kind,
            width,
            height,
            x,
            y,
        )
}

/// A position of the grid has an index below the number of cells.
pub proof fn lemma_cell_index_bounds(width: int, height: int, x: int, y: int)
    requires
        in_grid(width, height, x, y),
    ensures
        0 <= cell_index(width, x, y) < width * height,
{
    assert(0 <= x + y * width < width * height) by (nonlinear_arith)
        requires
            0 <= x < width,
            0 <= y < height,
    ;
}

/// Two positions in the columns of the grid that share an index are the
/// same position.
pub proof fn lemma_cell_index_injective(width: int, x1: int, y1: int, x2: int, y2: int)
    requires
        0 <= x1 < width,
        0 <= x2 < width,
        cell_index(width, x1, y1) == cell_index(width, x2, y2),
    ensures
        x1 == x2,
        y1 == y2,
{
    assert(x1 == x2 && y1 == y2) by (nonlinear_arith)
        requires
            0 <= x1 < width,
            0 <= x2 < width,
            x1 + y1 * width == x2 + y2 * width,
    {
        if y1 < y2 {
            assert((y2 - y1) * width >= width);
        } else if y2 < y1 {
            assert((y1 - y2) * width >= width);
        }
    }
}

/// Replacing one cell changes the number of filled cells by what that cell
/// contributes.
pub proof fn lemma_count_filled_update(cells: Seq<Particle>, i: int, p: Particle)
    requires
        0 <= i < cells.len(),
    ensures
        count_filled(cells.update(i, p)) + (if cells[i].filled {
            1nat
        } else {
            0nat
        }) == count_filled(cells) + (if p.filled {
            1nat
        } else {
            0nat
        }),
    decreases cells.len(),
{
    let after = cells.update(i, p);
    if i == cells.len() - 1 {
        assert(after.drop_last() =~= cells.drop_last());
    } else {
        lemma_count_filled_update(cells.drop_last(), i, p);
        assert(after.drop_last() =~= cells.drop_last().update(i, p));
    }
}

impl Grid {
    /// The grid holds as many cells as its sides say, and at least one.
    pub open spec fn wf(&self) -> bool {
        self@.ok()
    }

    /// Whether the grid holds as many cells as its sides say, and at least
    /// one.
    pub fn is_wf(&self) -> (r: bool)
        ensures
            r == self.wf(),
    {
        if self.width == 0 || self.height == 0 {
            return false;
        }
        match self.width.checked_mul(self.height) {
            Some(size) => self.cells.len() == size,
            None => false,
        }
    }

    /// Whether a `width` by `height` grid can be made with the pattern
    /// `grid_type`.
    pub fn can_sow(grid_type: GridType, width: usize, height: usize) -> (r: bool)
        ensures
            r == sowable(grid_type, width as int, height as int),
    {
        if width == 0 || height == 0 || width.checked_mul(height).is_none() {
            return false;
        }
        match grid_type {
            GridType::Circle => {
                let shorter: usize = if width <= height {
                    width
                } else {
                    height
                };
                shorter / 10 < width / 2 && shorter / 10 < height / 2
            },
            _ => true,
        }
    }

    /// Whether the cell at `idx` is filled.
    pub fn filled(&self, idx: usize) -> (b: bool)
        requires
            idx < self.cells@.len(),
        ensures
            b == self.cells@[idx as int].filled,
    {
        self.cells[idx].filled
    }

    /// Fills or empties the cell at `idx` and leaves its rank alone.
    pub fn set_fill(&mut self, idx: usize, filled: bool)
        requires
            idx < old(self).cells@.len(),
        ensures
            final(self)@ == old(self)@.with_fill(idx as int, filled),
            final(self).wf() == old(self).wf(),
    {
        let id: usize = self.cells[idx].id;
        self.cells[idx] = Particle { filled: filled, id: id };
    }

    fn get_idx(width: usize, x: usize, y: usize) -> (i: usize)
        requires
            x + y * width <= usize::MAX,
        ensures
            i == cell_index(width as int, x as int, y as int),
    {
        assert(y * width <= x + y * width) by (nonlinear_arith);
        x + y * width
    }

    /// The index of the cell at `(x, y)`.
    pub fn idx(&self, x: usize, y: usize) -> (i: usize)
        requires
            self.wf(),
            self@.has(x as int, y as int),
        ensures
            i == self@.index(x as int, y as int),
            i < self.cells@.len(),
    {
        proof {
            lemma_cell_index_bounds(self.width as int, self.height as int, x as int, y as int);
            assert(x + y * self.width < self.width * self.height);
        }
        Self::get_idx(self.width, x, y)
    }

    /// A `width` by `height` grid with the particles of the pattern
    /// `grid_type` and no others. None of them has a rank.
    pub fn from(grid_type: GridType, width: u32, height: u32) -> (g: Grid)
        requires
            sowable(grid_type, width as int, height as int),
        ensures
            g@.sown(grid_type, width as int, height as int),
    {
        Self::build(grid_type, width as usize, height as usize)
    }

    /// A `width` by `height` grid with the particles of the pattern
    /// `grid_type` and no others. None of them has a rank.
    pub fn build(grid_type: GridType, width: usize, height: usize) -> (g: Grid)
        requires
            sowable(grid_type, width as int, height as int),
        ensures
            g@.sown(grid_type, width as int, height as int),
    {
        let cells = match grid_type {
            GridType::BottomEdge => Self::cells_bottom_edge(width, height),
            GridType::AllEdges => Self::cells_all_edges(width, height),
            GridType::FourDots => Self::cells_four_dots(width, height),
            GridType::RandFive => Self::cells_random5(width, height),
            GridType::Circle => {
                let shorter: usize = if width <= height {
                    width
                } else {
                    height
                };
                Self::cells_circle(width, height, shorter / 10)
            },
            GridType::Center => Self::cells_center(width, height),
        };
        // the layout only says which cells are filled; the grid holds a
        // particle for every cell
        let mut cells_particle: Vec<Particle> = Vec::new();
        let mut i: usize = 0;
        while i < cells.len()
            invariant
                i <= cells@.len(),
                cells_particle@.len() == i,
                forall|j: int|
                    0 <= j < i ==> #[trigger] cells_particle@[j] == (Particle {
                        filled: cells@[j],
                        id: 0,
                    }),
            decreases cells@.len() - i,
        {
            cells_particle.push(Particle { filled: cells[i], id: 0 });
            i += 1;
        }
        let g = Grid { cells: cells_particle, width: width, height: height };
        assert(g@.fills() =~= cells@);
        g
    }

    fn cells_empty(width: usize, height: usize) -> (v: Vec<bool>)
        requires
            width > 0,
            height > 0,
            width * height <= usize::MAX,
        ensures
            v@.len() == width * height,
            forall|i: int| 0 <= i < v@.len() ==> !v@[i],
            forall|x: int, y: int|
                in_grid(width as int, height as int, x, y) ==> !#[trigger] v@[cell_index(
                    width as int,
                    x,
                    y,
                )],
    {
        let size: usize = width * height;
        let v = vec![false; size];
        assert forall|x: int, y: int|
            in_grid(width as int, height as int, x, y) implies !#[trigger] v@[cell_index(
            width as int,
            x,
            y,
        )] by {
            lemma_cell_index_bounds(width as int, height as int, x, y);
        }
        v
    }

    /// The layout with exactly the cells of `dots` filled.
    fn cells_dots(width: usize, height: usize, dots: &Vec<(usize, usize)>) -> (v: Vec<bool>)
        requires
            width > 0,
            height > 0,
            width * height <= usize::MAX,
            dots_in_grid(dots@, width as int, height as int),
        ensures
            dotted(v@, width as int, height as int, dots@),
    {
        let mut v = Self::cells_empty(width, height);
        let ghost w = width as int;
        let ghost h = height as int;
        let mut k: usize = 0;
        while k < dots.len()
            invariant
                k <= dots@.len(),
                width > 0,
                height > 0,
                w == width,
                h == height,
                dots_in_grid(dots@, w, h),
                v@.len() == w * h,
                w * h <= usize::MAX,
                forall|x: int, y: int|
                    in_grid(w, h, x, y) ==> #[trigger] v@[cell_index(w, x, y)] == among(
                        dots@,
                        k as int,
                        x,
                        y,
                    ),
            decreases dots@.len() - k,
        {
            let (dx, dy) = dots[k];
            assert(in_grid(w, h, dots@[k as int].0 as int, dots@[k as int].1 as int));
            proof {
                lemma_cell_index_bounds(w, h, dx as int, dy as int);
            }
            let i: usize = Self::get_idx(width, dx, dy);
            let ghost before = v@;
            v[i] = true;
            assert forall|x: int, y: int| in_grid(w, h, x, y) implies #[trigger] v@[cell_index(
                w,
                x,
                y,
            )] == among(dots@, k + 1, x, y) by {
                lemma_cell_index_bounds(w, h, x, y);
                if cell_index(w, x, y) == i {
                    lemma_cell_index_injective(w, x, y, dx as int, dy as int);
                    assert(dots@[k as int].0 == x && dots@[k as int].1 == y);
                } else {
                    assert(v@[cell_index(w, x, y)] == before[cell_index(w, x, y)]);
                    if among(dots@, k + 1, x, y) {
                        let j = choose|j: int|
                            0 <= j < k + 1 && (#[trigger] dots@[j]).0 == x && dots@[j].1 == y;
                        assert(j != k);
                        assert(among(dots@, k as int, x, y));
                    }
                    if among(dots@, k as int, x, y) {
                        let j = choose|j: int|
                            0 <= j < k && (#[trigger] dots@[j]).0 == x && dots@[j].1 == y;
                        assert(among(dots@, k + 1, x, y));
                    }
                }
            }
            k += 1;
        }
        v
    }

    /// The layout with one particle in the middle.
    fn cells_center(width: usize, height: usize) -> (v: Vec<bool>)
        requires
            width > 0,
            height > 0,
            width * height <= usize::MAX,
        ensures
            patterned(v@, GridType::Center, width as int, height as int),
    {
        let mut dots: Vec<(usize, usize)> = Vec::new();
        dots.push((width / 2, height / 2));
        let v = Self::cells_dots(width, height, &dots);
        let ghost w = width as int;
        let ghost h = height as int;
        assert forall|x: int, y: int| in_grid(w, h, x, y) implies #[trigger] v@[cell_index(
            w,
            x,
            y,
        )] == seeded(GridType::Center, w, h, x, y) by {
            if seeded(GridType::Center, w, h, x, y) {
                assert(dots@[0].0 == x && dots@[0].1 == y);
            }
        }
        v
    }

    /// Fills the row `y0` and leaves the other cells alone.
    fn fill_row(v: &mut Vec<bool>, width: usize, height: usize, y0: usize)
        requires
            width > 0,
            y0 < height,
            width * height <= usize::MAX,
            old(v)@.len() == width * height,
        ensures
            final(v)@.len() == old(v)@.len(),
            forall|x: int, y: int|
                in_grid(width as int, height as int, x, y) ==> #[trigger] final(v)@[cell_index(
                    width as int,
                    x,
                    y,
                )] == (old(v)@[cell_index(width as int, x, y)] || y == y0),
    {
        let ghost w = width as int;
        let ghost h = height as int;
        let ghost start = v@;
        let mut x0: usize = 0;
        while x0 < width
            invariant
                x0 <= width,
                width > 0,
                y0 < height,
                w == width,
                h == height,
                v@.len() == w * h,
                start.len() == w * h,
                w * h <= usize::MAX,
                forall|x: int, y: int|
                    in_grid(w, h, x, y) ==> #[trigger] v@[cell_index(w, x, y)] == (start[cell_index(
                        w,
                        x,
                        y,
                    )] || (y == y0 && x < x0)),
            decreases width - x0,
        {
            proof {
                lemma_cell_index_bounds(w, h, x0 as int, y0 as int);
            }
            let i: usize = Self::get_idx(width, x0, y0);
            let ghost before = v@;
            v[i] = true;
            assert forall|x: int, y: int| in_grid(w, h, x, y) implies #[trigger] v@[cell_index(
                w,
                x,
                y,
            )] == (start[cell_index(w, x, y)] || (y == y0 && x < x0 + 1)) by {
                lemma_cell_index_bounds(w, h, x, y);
                if cell_index(w, x, y) == i {
                    lemma_cell_index_injective(w, x, y, x0 as int, y0 as int);
                } else {
                    assert(v@[cell_index(w, x, y)] == before[cell_index(w, x, y)]);
                }
            }
            x0 += 1;
        }
    }

    /// Fills the column `x0` and leaves the other cells alone.
    fn fill_column(v: &mut Vec<bool>, width: usize, height: usize, x0: usize)
        requires
            x0 < width,
            height > 0,
            width * height <= usize::MAX,
            old(v)@.len() == width * height,
        ensures
            final(v)@.len() == old(v)@.len(),
            forall|x: int, y: int|
                in_grid(width as int, height as int, x, y) ==> #[trigger] final(v)@[cell_index(
                    width as int,
                    x,
                    y,
                )] == (old(v)@[cell_index(width as int, x, y)] || x == x0),
    {
        let ghost w = width as int;
        let ghost h = height as int;
        let ghost start = v@;
        let mut y0: usize = 0;
        while y0 < height
            invariant
                y0 <= height,
                x0 < width,
                height > 0,
                w == width,
                h == height,
                v@.len() == w * h,
                start.len() == w * h,
                w * h <= usize::MAX,
                forall|x: int, y: int|
                    in_grid(w, h, x, y) ==> #[trigger] v@[cell_index(w, x, y)] == (start[cell_index(
                        w,
                        x,
                        y,
                    )] || (x == x0 && y < y0)),
            decreases height - y0,
        {
            proof {
                lemma_cell_index_bounds(w, h, x0 as int, y0 as int);
            }
            let i: usize = Self::get_idx(width, x0, y0);
            let ghost before = v@;
            v[i] = true;
            assert forall|x: int, y: int| in_grid(w, h, x, y) implies #[trigger] v@[cell_index(
                w,
                x,
                y,
            )] == (start[cell_index(w, x, y)] || (x == x0 && y < y0 + 1)) by {
                lemma_cell_index_bounds(w, h, x, y);
                if cell_index(w, x, y) == i {
                    lemma_cell_index_injective(w, x, y, x0 as int, y0 as int);
                } else {
                    assert(v@[cell_index(w, x, y)] == before[cell_index(w, x, y)]);
                }
            }
            y0 += 1;
        }
    }

    /// Generates a grid where the bottom edge is filled
    fn cells_bottom_edge(width: usize, height: usize) -> (v: Vec<bool>)
        requires
            width > 0,
            height > 0,
            width * height <= usize::MAX,
        ensures
            patterned(v@, GridType::BottomEdge, width as int, height as int),
    {
        let mut v = Self::cells_empty(width, height);
        Self::fill_row(&mut v, width, height, height - 1);
        v
    }

    /// Generates a grid where all four edges are filled
    fn cells_all_edges(width: usize, height: usize) -> (v: Vec<bool>)
        requires
            width > 0,
            height > 0,
            width * height <= usize::MAX,
        ensures
            patterned(v@, GridType::AllEdges, width as int, height as int),
    {
        let mut v = Self::cells_bottom_edge(width, height);
        // fill top edge
        Self::fill_row(&mut v, width, height, 0);
        // left side
        Self::fill_column(&mut v, width, height, 0);
        // right side
        Self::fill_column(&mut v, width, height, width - 1);
        v
    }

    /// Two thirds of `n`, rounded down.
    fn two_thirds(n: usize) -> (r: usize)
        ensures
            r == 2 * n / 3,
    {
        n / 3 * 2 + n % 3 * 2 / 3
    }

    /// The layout with one particle in each quadrant.
    fn cells_four_dots(width: usize, height: usize) -> (v: Vec<bool>)
        requires
            width > 0,
            height > 0,
            width * height <= usize::MAX,
        ensures
            patterned(v@, GridType::FourDots, width as int, height as int),
    {
        let tl_x: usize = width / 3;
        let tl_y: usize = height / 3;
        let br_x: usize = Self::two_thirds(width);
        let br_y: usize = Self::two_thirds(height);
        let mut dots: Vec<(usize, usize)> = Vec::new();
        dots.push((tl_x, tl_y));
        dots.push((br_x, tl_y));
        dots.push((tl_x, br_y));
        dots.push((br_x, br_y));
        let v = Self::cells_dots(width, height, &dots);
        let ghost w = width as int;
        let ghost h = height as int;
        assert forall|x: int, y: int| in_grid(w, h, x, y) implies #[trigger] v@[cell_index(
            w,
            x,
            y,
        )] == seeded(GridType::FourDots, w, h, x, y) by {
            if seeded(GridType::FourDots, w, h, x, y) {
                if x == w / 3 && y == h / 3 {
                    assert(dots@[0].0 == x && dots@[0].1 == y);
                } else if y == h / 3 {
                    assert(dots@[1].0 == x && dots@[1].1 == y);
                } else if x == w / 3 {
                    assert(dots@[2].0 == x && dots@[2].1 == y);
                } else {
                    assert(dots@[3].0 == x && dots@[3].1 == y);
                }
            }
        }
        v
    }

    /// The layout with five particles at random positions, which may
    /// coincide.
    fn cells_random5(width: usize, height: usize) -> (v: Vec<bool>)
        requires
            width > 0,
            height > 0,
            width * height <= usize::MAX,
        ensures
            scattered(v@, width as int, height as int),
    {
        let mut dots: Vec<(usize, usize)> = Vec::new();
        let mut n: usize = 0;
        while n < 5
            invariant
                n <= 5,
                width > 0,
                height > 0,
                dots@.len() == n,
                dots_in_grid(dots@, width as int, height as int),
            decreases 5 - n,
        {
            let randx: usize = random_below(width);
            let randy: usize = random_below(height);
            dots.push((randx, randy));
            n += 1;
        }
        Self::cells_dots(width, height, &dots)
    }

    /// The distance between `(x, y)` and `(x2, y2)`, rounded down.
    fn distance(x: usize, y: usize, x2: usize, y2: usize) -> (d: usize)
        requires
            dist(x as int, y as int, x2 as int, y2 as int) <= usize::MAX,
        ensures
            d == dist(x as int, y as int, x2 as int, y2 as int),
    {
        let dx: u128 = if x >= x2 {
            (x - x2) as u128
        } else {
            (x2 - x) as u128
        };
        let dy: u128 = if y >= y2 {
            (y - y2) as u128
        } else {
            (y2 - y) as u128
        };
        proof {
            let n = sq_dist(x as int, y as int, x2 as int, y2 as int);
            let r = dist(x as int, y as int, x2 as int, y2 as int);
            lemma_isqrt_exists(n);
            assert(n == dx * dx + dy * dy);
            assert(n < 0x1_0000_0000_0000_0000_0000_0000_0000_0000) by (nonlinear_arith)
                requires
                    n < (r + 1) * (r + 1),
                    r <= 0xffff_ffff_ffff_ffff,
            ;
            assert(0 <= dx * dx && 0 <= dy * dy) by (nonlinear_arith);
        }
        let n: u128 = dx * dx + dy * dy;
        let r: u128 = isqrt_u128(n);
        r as usize
    }

    /// The distance between `(x, y)` and the centre of the grid, rounded
    /// down.
    pub fn dist_to_center(&self, x: usize, y: usize) -> (d: usize)
        requires
            dist(x as int, y as int, self.width as int / 2, self.height as int / 2) <= usize::MAX,
        ensures
            d == dist(x as int, y as int, self.width as int / 2, self.height as int / 2),
    {
        Self::distance(x, y, self.width / 2, self.height / 2)
    }

    /// The layout with a thin ring of particles at distance `radius` from
    /// the centre.
    fn cells_circle(width: usize, height: usize, radius: usize) -> (v: Vec<bool>)
        requires
            width > 0,
            height > 0,
            width * height <= usize::MAX,
            radius < width / 2,
            radius < height / 2,
        ensures
            ringed(v@, width as int, height as int, radius as int),
    {
        let mut v = Self::cells_empty(width, height);
        let midx: usize = width / 2;
        let midy: usize = height / 2;
        let ghost w = width as int;
        let ghost h = height as int;
        let mut x0: usize = 0;
        while x0 < width
            invariant
                x0 <= width,
                width > 0,
                height > 0,
                w == width,
                h == height,
                midx == w / 2,
                midy == h / 2,
                v@.len() == w * h,
                w * h <= usize::MAX,
                forall|x: int, y: int|
                    in_grid(w, h, x, y) ==> #[trigger] v@[cell_index(w, x, y)] == (x < x0 && dist(
                        x,
                        y,
                        w / 2,
                        h / 2,
                    ) == radius),
            decreases width - x0,
        {
            let mut y0: usize = 0;
            while y0 < height
                invariant
                    y0 <= height,
                    x0 < width,
                    width > 0,
                    height > 0,
                    w == width,
                    h == height,
                    midx == w / 2,
                    midy == h / 2,
                    v@.len() == w * h,
                    w * h <= usize::MAX,
                    forall|x: int, y: int|
                        in_grid(w, h, x, y) ==> #[trigger] v@[cell_index(w, x, y)] == ((x < x0 || (x
                            == x0 && y < y0)) && dist(x, y, w / 2, h / 2) == radius),
                decreases height - y0,
            {
                proof {
                    lemma_dist_in_grid(
                        w as nat,
                        h as nat,
                        x0 as nat,
                        y0 as nat,
                        midx as nat,
                        midy as nat,
                    );
                    lemma_cell_index_bounds(w, h, x0 as int, y0 as int);
                }
                let ghost before = v@;
                if Self::distance(x0, y0, midx, midy) == radius {
                    let i: usize = Self::get_idx(width, x0, y0);
                    v[i] = true;
                }
                assert forall|x: int, y: int| in_grid(w, h, x, y) implies #[trigger] v@[cell_index(
                    w,
                    x,
                    y,
                )] == ((x < x0 || (x == x0 && y < y0 + 1)) && dist(x, y, w / 2, h / 2)
                    == radius) by {
                    lemma_cell_index_bounds(w, h, x, y);
                    if cell_index(w, x, y) == cell_index(w, x0 as int, y0 as int) {
                        lemma_cell_index_injective(w, x, y, x0 as int, y0 as int);
                    } else {
                        assert(v@[cell_index(w, x, y)] == before[cell_index(w, x, y)]);
                    }
                }
                y0 += 1;
            }
            x0 += 1;
        }
        v
    }

    /// The number of filled cells.
    pub fn stuck_particles(&self) -> (n: usize)
        ensures
            n == count_filled(self.cells@),
    {
        let mut n: usize = 0;
        let mut i: usize = 0;
        while i < self.cells.len()
            invariant
                i <= self.cells@.len(),
                n == count_filled(self.cells@.take(i as int)),
                n <= i,
            decreases self.cells@.len() - i,
        {
            assert(self.cells@.take(i + 1).drop_last() =~= self.cells@.take(i as int));
            if self.cells[i].filled {
                n += 1;
            }
            i += 1;
        }
        assert(self.cells@.take(i as int) =~= self.cells@);
        n
    }
}

impl Default for Grid {
    /// An empty grid of 400 by 400 cells.
    fn default() -> (g: Grid)
        ensures
            g.wf(),
            g.width == 400,
            g.height == 400,
            forall|i: int|
                0 <= i < g.cells@.len() ==> #[trigger] g.cells@[i] == (Particle {
                    filled: false,
                    id: 0,
                }),
    {
        let cells = vec![Particle { filled: false, id: 0 }; 160_000];
        Grid { cells: cells, width: 400, height: 400 }
    }
}

} // verus!
