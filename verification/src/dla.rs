//! The simulation: one particle at a time walks over the grid until it
//! touches a filled cell and sticks.

use crate::colors::{get_gradients, Color, ColorName, Theme};
use crate::config::{bytes_of, chosen_grid_type, DlaConfig, GridType};
use crate::grid::{
    count_filled, lemma_cell_index_bounds, lemma_cell_index_injective, lemma_count_filled_update,
    neighbor, sowable, Board, Grid, Particle,
};
use crate::math::{dist, lemma_dist_in_grid};
use crate::random::random_below;
use vstd::prelude::*;

verus! {

/// The colour of particles until another is chosen.
pub const DEFAULT_PART_CLR: ColorName = ColorName::Seafoam;

/// The colour of the background until another is chosen.
pub const DEFAULT_BACK_CLR: ColorName = ColorName::Black;

/// The gradient until another is chosen.
pub const DEFAULT_THEME: Theme = Theme::Seafoam;

/// The label of the button that pauses a running simulation.
pub const PAUSE_BUTTON_TEXT: &'static str = "Stop";

/// The label of the button that resumes a paused simulation.
pub const UNPAUSE_BUTTON_TEXT: &'static str = "Start";

/// How many positions are drawn for a new particle before the grid counts
/// as full.
pub const MAX_RETRIES: usize = 1_000;

/// How many updates a worker makes before it lets go of the simulation.
pub const BATCH_SIZE: usize = 10;

/// How many milliseconds a worker rests when there is nothing to do.
pub const IDLE_MILLIS: u64 = 100;

/// The target of a simulation until another is chosen.
pub const DEFAULT_PARTICLES: usize = 10_000;

/// The particle that is on its way.
#[derive(Clone, Copy, Debug)]
pub struct Walker {
    /// Does the particle exist?
    pub exists: bool,
    /// The current position of the particle (x, y)
    pub pos: (usize, usize),
}

/// How the search for a place for a new particle goes on after a draw.
#[derive(Clone, Copy, Debug, PartialEq, Eq, Structural)]
pub enum Search {
    /// The position drawn can take the particle.
    Found,
    /// The position drawn cannot take it; this many draws have failed, and
    /// another is made.
    Again(usize),
    /// The position drawn cannot take it, and no further draw is made.
    GiveUp,
}

/// What a search does after a draw, when `failed_before` draws have failed
/// and the position drawn now fits or does not: a position that fits is
/// taken, and the search is given up with the draw that is the last of
/// `MAX_RETRIES` failures in a row.
pub open spec fn search_after(failed_before: int, fits: bool) -> Search {
    if fits {
        Search::Found
    } else if failed_before + 1 >= MAX_RETRIES {
        Search::GiveUp
    } else {
        Search::Again((failed_before + 1) as usize)
    }
}

/// A simulation: the grid, the particle on its way, and how far the run
/// has come.
#[derive(Clone, Debug)]
pub struct DlaGrid {
    /// The cells.
    pub grid: Grid,
    /// The particle on its way. Each update either moves it or, if the last
    /// one stuck, puts a new one on the grid.
    pub cur_part: Walker,
    /// The number of particles that have stuck so far
    pub stuck_particles: usize,
    /// Whether the run is over.
    pub is_complete: bool,
    /// The number of stuck particles at which the run is over
    pub particles: usize,
    /// The number of updates made since the grid was seeded
    pub updates: u64,
    /// Particles will be this color when displayed
    pub fill_color: Color,
    /// Color for unfilled cells when displayed
    pub empty_color: Color,
    /// Is the simulation paused?
    pub paused: bool,
    /// Style of the initial starting grid
    pub grid_type: GridType,
    /// New particles keep further than this from the centre of the grid.
    pub spawn_radius: Option<usize>,
    /// The grid has changed its size and whoever draws it has not yet
    /// followed.
    pub do_resize: bool,
    /// The gradient that shows when a particle stuck, if any.
    pub theme: Option<Theme>,
}

/// What a simulation holds, as mathematical values.
pub struct Sim {
    /// The grid.
    pub board: Board,
    /// The particle on its way.
    pub walker: Walker,
    /// The number of particles that have stuck.
    pub stuck: int,
    /// The number of stuck particles at which the run is over.
    pub target: int,
    /// The number of updates made since the grid was seeded.
    pub updates: int,
    /// Whether the run is over.
    pub complete: bool,
    /// Whether the run is paused.
    pub paused: bool,
    /// How far from the centre new particles keep at least, if at all.
    pub radius: Option<usize>,
    /// The pattern the grid was seeded with.
    pub grid_type: GridType,
    /// Whether the grid has changed its size unseen.
    pub do_resize: bool,
    /// The colour of particles.
    pub fill_color: Color,
    /// The colour of empty cells.
    pub empty_color: Color,
    /// The gradient that shows when a particle stuck, if any.
    pub theme: Option<Theme>,
}

/// A new particle may be put on `(x, y)`: the cell is an empty cell of the
/// grid and, where a radius is set, further than that from the centre.
pub open spec fn can_take(board: Board, radius: Option<usize>, x: int, y: int) -> bool {
    &&& board.free_at(x, y)
    &&& match radius {
        Some(radius) => dist(x, y, board.width / 2, board.height / 2) > radius,
        None => true,
    }
}

/// No position of the grid can take a new particle.
pub open spec fn full(board: Board, radius: Option<usize>) -> bool {
    forall|x: int, y: int| board.has(x, y) ==> !#[trigger] can_take(board, radius, x, y)
}

impl Sim {
    /// A new particle may be put on `(x, y)`: the cell is empty and, where
    /// a radius is set, further than that from the centre.
    pub open spec fn spawnable(self, x: int, y: int) -> bool {
        can_take(self.board, self.radius, x, y)
    }

    /// No position of the grid can take a new particle.
    pub open spec fn saturated(self) -> bool {
        full(self.board, self.radius)
    }

    /// The column of the walker.
    pub open spec fn x(self) -> int {
        self.walker.pos.0 as int
    }

    /// The row of the walker.
    pub open spec fn y(self) -> int {
        self.walker.pos.1 as int
    }

    /// The walker stands on the grid.
    pub open spec fn placed(self) -> bool {
        self.board.ok() && self.board.has(self.x(), self.y())
    }

    /// The grid has its cells, the walker stands on it, and a walker that
    /// exists touches no filled cell (or it would have stuck).
    pub open spec fn wf(self) -> bool {
        &&& self.placed()
        &&& self.walker.exists ==> !self.board.touches(self.x(), self.y())
    }

    /// The number of filled cells that hold a stuck particle: all filled
    /// cells but the one the walker stands on.
    pub open spec fn settled(self) -> nat {
        if self.walker.exists {
            count_filled(self.board.with_fill(self.board.index(self.x(), self.y()), false).cells)
        } else {
            count_filled(self.board.cells)
        }
    }

    /// The count of stuck particles is the number of filled cells that hold
    /// one.
    pub open spec fn consistent(self) -> bool {
        self.stuck == self.settled()
    }

    /// One more update has been counted.
    pub open spec fn ticked(self) -> Sim {
        Sim { updates: self.updates + 1, ..self }
    }

    /// The particle has arrived at the walker's position: it sticks if it
    /// touches a filled cell, taking the new count as its rank; its cell is
    /// filled either way; and the run is over once the count has reached
    /// the target.
    pub open spec fn landed(self) -> Sim {
        let i = self.board.index(self.x(), self.y());
        let sticks = self.board.touches(self.x(), self.y());
        let stuck = if sticks {
            self.stuck + 1
        } else {
            self.stuck
        };
        let id = if sticks {
            stuck as usize
        } else {
            self.board.cells[i].id
        };
        Sim {
            board: self.board.with(i, Particle { filled: true, id: id }),
            walker: Walker { exists: !sticks, pos: self.walker.pos },
            stuck: stuck,
            complete: self.complete || stuck >= self.target,
            ..self
        }
    }

    /// The walker has left its cell for `to` and arrived there.
    pub open spec fn walked_to(self, to: (usize, usize)) -> Sim {
        Sim {
            board: self.board.with_fill(self.board.index(self.x(), self.y()), false),
            walker: Walker { exists: true, pos: to },
            ..self
        }.landed()
    }

    /// A new particle has been put on `at` and arrived there.
    pub open spec fn spawned_at(self, at: (usize, usize)) -> Sim {
        Sim { walker: Walker { exists: true, pos: at }, ..self }.landed()
    }

    /// The search for a place for a new particle has ended on `at`; where
    /// that place cannot take one, the search was given up and the run is
    /// over.
    pub open spec fn searched(self, at: (usize, usize)) -> Sim {
        Sim { complete: self.complete || !self.spawnable(at.0 as int, at.1 as int), ..self }
    }

    /// `next` can come out of one update. A run that is over stays as it
    /// is. A walker takes a step to an empty neighbour. Without a walker, a
    /// new particle is put on some position of the grid, and the run is over
    /// if that position could not take one. Each time the update is counted
    /// and the particle arrives. `next` records where the particle went.
    pub open spec fn steps_to(self, next: Sim) -> bool {
        if self.complete {
            next == self
        } else if self.walker.exists {
            &&& self.board.is_step(self.x(), self.y(), next.walker.pos)
            &&& next == self.ticked().walked_to(next.walker.pos)
        } else {
            &&& self.board.has(next.x(), next.y())
            &&& next == self.ticked().searched(next.walker.pos).spawned_at(next.walker.pos)
        }
    }

    /// `last` can come out of `n` updates in a row.
    pub open spec fn reaches(self, last: Sim, n: nat) -> bool
        decreases n,
    {
        if n == 0 {
            last == self
        } else {
            exists|mid: Sim| self.reaches(mid, (n - 1) as nat) && #[trigger] mid.steps_to(last)
        }
    }

    /// The update that found no room for a new particle put it on a filled
    /// cell: the one case in which an update loses count.
    pub open spec fn crowded_into(self, next: Sim) -> bool {
        !self.complete && !self.walker.exists && self.board.filled_at(next.x(), next.y())
    }

    /// A simulation on `board` before its first update: nothing walks, the
    /// seeds are the stuck particles, and the run waits to be started.
    pub open spec fn fresh(board: Board, kind: GridType, target: int) -> Sim {
        Sim {
            board: board,
            walker: Walker { exists: false, pos: (0, 0) },
            stuck: count_filled(board.cells) as int,
            target: target,
            updates: 0,
            complete: false,
            paused: true,
            radius: None,
            grid_type: kind,
            do_resize: false,
            fill_color: DEFAULT_PART_CLR.color(),
            empty_color: DEFAULT_BACK_CLR.color(),
            theme: Some(DEFAULT_THEME),
        }
    }

    /// The simulation starts over on `board`, seeded with `kind`: nothing
    /// walks, the seeds are the stuck particles, no update is counted, and
    /// the run waits to be started. Target, colours and radius stay.
    pub open spec fn reseeded(self, board: Board, kind: GridType) -> Sim {
        Sim {
            board: board,
            walker: Walker { exists: false, pos: (0, 0) },
            stuck: count_filled(board.cells) as int,
            updates: 0,
            complete: false,
            paused: true,
            grid_type: kind,
            ..self
        }
    }

    /// The simulation shows `board`, read from a file: its filled cells
    /// are the stuck particles, they are the target too, the run is over
    /// and nothing walks. A change of width asks for a resize.
    pub open spec fn loaded(self, board: Board) -> Sim {
        Sim {
            board: board,
            walker: Walker { exists: false, pos: (0, 0) },
            stuck: count_filled(board.cells) as int,
            target: count_filled(board.cells) as int,
            complete: true,
            do_resize: self.do_resize || self.board.width != board.width,
            ..self
        }
    }

    /// The target is now `n`. A finished run whose target grows has more to
    /// do and waits to be started; otherwise a target equal to what has
    /// stuck ends the run; any other target is only stored.
    pub open spec fn retargeted(self, n: int) -> Sim {
        if self.complete && self.target < n {
            Sim { complete: false, paused: true, target: n, ..self }
        } else if self.stuck == n {
            Sim { complete: true, target: n, ..self }
        } else {
            Sim { target: n, ..self }
        }
    }

    /// The run can go on without a walker ever being shut in: the grid has
    /// more than one cell, or the run is over, or nothing walks and the next
    /// update ends the run, because no position can take a new particle or
    /// because enough particles have stuck.
    pub open spec fn runnable(self) -> bool {
        ||| self.board.roomy()
        ||| self.complete
        ||| !self.walker.exists && (self.saturated() || self.stuck >= self.target)
    }

    /// The colour in which the cell `p` is shown: the background for an
    /// empty cell; for a filled one the plain colour, or under a theme the
    /// colour of the tenth of the run in which the particle stuck.
    pub open spec fn shade(self, p: Particle) -> Color {
        if !p.filled {
            self.empty_color
        } else {
            match self.theme {
                Some(theme) => theme.gradient()[bucket(self.stuck, p.id as int)],
                None => self.fill_color,
            }
        }
    }

    /// How many cells are shown on a screen of `len` bytes: four bytes a
    /// cell, as many as fit, and not more than there are.
    pub open spec fn shown(self, len: int) -> int {
        if self.board.cells.len() <= len / 4 {
            self.board.cells.len() as int
        } else {
            len / 4
        }
    }

    /// `after` is the screen `before` with the cells painted over its
    /// start, four bytes a cell, and nothing else changed.
    pub open spec fn painted(self, before: Seq<u8>, after: Seq<u8>) -> bool {
        &&& after.len() == before.len()
        &&& forall|j: int|
            0 <= j < 4 * self.shown(before.len() as int) ==> #[trigger] after[j] == self.shade(
                self.board.cells[j / 4],
            )[j % 4]
        &&& forall|j: int|
            4 * self.shown(before.len() as int) <= j < before.len() ==> #[trigger] after[j]
                == before[j]
    }
}

/// The place in a gradient of a particle of rank `id`, when `stuck`
/// particles have stuck: the tenth of the run it belongs to, the last one was
/// for ranks beyond.
pub open spec fn bucket(stuck: int, id: int) -> int {
    let size = stuck / 10;
    if size == 0 {
        0
    } else if id / size >= 10 {
        9
    } else {
        id / size
    }
}

/// The height that a configuration asks for: its width where none is
/// given.
pub open spec fn config_height(config: DlaConfig) -> int {
    match config.height {
        Some(height) => height as int,
        None => config.width as int,
    }
}

/// The label that the pause button shows: what a click on it would do.
pub open spec fn pause_label(paused: bool) -> Seq<char> {
    if paused {
        UNPAUSE_BUTTON_TEXT@
    } else {
        PAUSE_BUTTON_TEXT@
    }
}

impl View for DlaGrid {
    type V = Sim;

    open spec fn view(&self) -> Sim {
        Sim {
            board: self.grid@,
            walker: self.cur_part,
            stuck: self.stuck_particles as int,
            target: self.particles as int,
            updates: self.updates as int,
            complete: self.is_complete,
            paused: self.paused,
            radius: self.spawn_radius,
            grid_type: self.grid_type,
            do_resize: self.do_resize,
            fill_color: self.fill_color,
            empty_color: self.empty_color,
            theme: self.theme,
        }
    }
}

impl DlaGrid {
    /// The state is one that the simulation can be in.
    pub open spec fn wf(&self) -> bool {
        self@.wf()
    }

    fn get_idx(&self, x: usize, y: usize) -> (i: usize)
        requires
            self.grid.wf(),
            self.grid@.has(x as int, y as int),
        ensures
            i == self.grid@.index(x as int, y as int),
            i < self.grid.cells@.len(),
    {
        proof {
            lemma_cell_index_bounds(self.grid@.width, self.grid@.height, x as int, y as int);
            assert(x + y * self.grid.width < self.grid.width * self.grid.height);
            assert(y * self.grid.width <= x + y * self.grid.width) by (nonlinear_arith);
        }
        x + y * self.grid.width
    }

    /// Whether `idx` is the index of a cell.
    pub fn valid_grid_idx(&self, idx: usize) -> (r: bool)
        requires
            self.grid.wf(),
        ensures
            r == (idx < self.grid@.width * self.grid@.height),
    {
        idx < self.grid.width * self.grid.height
    }

    fn valid_grid_pos(&self, pos: (i128, i128)) -> (r: bool)
        ensures
            r == self.grid@.has(pos.0 as int, pos.1 as int),
    {
        pos.0 < self.grid.width as i128 && pos.0 >= 0 && pos.1 < self.grid.height as i128 && pos.1
            >= 0
    }

    /// Whether the cell at `pos` is filled. A position off the grid counts
    /// as empty.
    fn get_filled(&self, pos: (i128, i128)) -> (r: bool)
        requires
            self.grid.wf(),
        ensures
            r == self.grid@.filled_at(pos.0 as int, pos.1 as int),
    {
        if self.valid_grid_pos(pos) {
            let i: usize = self.get_idx(pos.0 as usize, pos.1 as usize);
            self.grid.filled(i)
        } else {
            false
        }
    }

    /// The eight positions around `(x, y)`. They aren't necessarily all
    /// positions of the grid.
    fn get_neighbors(&self, x: usize, y: usize) -> (n: [(i128, i128); 8])
        ensures
            around(n, x as int, y as int),
    {
        let tx: i128 = x as i128;
        let ty: i128 = y as i128;
        [
            (tx - 1, ty - 1),
            (tx, ty - 1),
            (tx + 1, ty - 1),
            (tx - 1, ty),
            (tx + 1, ty),
            (tx - 1, ty + 1),
            (tx, ty + 1),
            (tx + 1, ty + 1),
        ]
    }

    /// Whether a particle at `(x, y)` should stick: one of its neighbours
    /// is a filled cell of the grid.
    fn should_stick(&self, x: usize, y: usize) -> (r: bool)
        requires
            self.grid.wf(),
        ensures
            r == self.grid@.touches(x as int, y as int),
    {
        let neighbors = self.get_neighbors(x, y);
        let mut k: usize = 0;
        while k < 8
            invariant
                k <= 8,
                self.grid.wf(),
                around(neighbors, x as int, y as int),
                forall|j: int|
                    0 <= j < k ==> !#[trigger] self.grid@.filled_neighbor(x as int, y as int, j),
            decreases 8 - k,
        {
            // make sure the neighbor is a valid point on our grid
            if self.get_filled(neighbors[k]) {
                assert(self.grid@.filled_neighbor(x as int, y as int, k as int));
                return true;
            }
            k += 1;
        }
        false
    }

    /// The empty cells of the grid around `(x, y)`, in the order of the
    /// neighbours.
    pub fn free_neighbors(&self, x: usize, y: usize) -> (v: Vec<(usize, usize)>)
        requires
            self.grid.wf(),
        ensures
            v@ == self.grid@.free_among(x as int, y as int, 8),
    {
        let neighbors = self.get_neighbors(x, y);
        let mut valid_neighbors: Vec<(usize, usize)> = Vec::new();
        let mut k: usize = 0;
        while k < 8
            invariant
                k <= 8,
                self.grid.wf(),
                around(neighbors, x as int, y as int),
                valid_neighbors@ == self.grid@.free_among(x as int, y as int, k as int),
            decreases 8 - k,
        {
            let n = neighbors[k];
            if self.valid_grid_pos(n) && !self.get_filled(n) {
                valid_neighbors.push((n.0 as usize, n.1 as usize));
            }
            k += 1;
        }
        valid_neighbors
    }

    /// Given a particle at `(x, y)`, its position after it has moved to one
    /// of its empty neighbours, picked at random.
    pub fn random_walk(&self, x: usize, y: usize) -> (to: (usize, usize))
        requires
            self.grid.wf(),
            self.grid@.can_move(x as int, y as int),
        ensures
            self.grid@.is_step(x as int, y as int, to),
            self.grid@.free_at(to.0 as int, to.1 as int),
    {
        // build a vector of possible neighbors
        // randomly pick from the vector accordingly
        let valid_neighbors = self.free_neighbors(x, y);
        proof {
            let k = choose|k: int|
                0 <= k < 8 && #[trigger] self.grid@.free_neighbor(x as int, y as int, k);
            lemma_free_among_nonempty(self.grid@, x as int, y as int, 8, k);
        }
        let num_neighbors: usize = valid_neighbors.len();
        let neighbor_idx: usize = random_below(num_neighbors);
        proof {
            lemma_free_among_steps(self.grid@, x as int, y as int, 8, neighbor_idx as int);
        }
        valid_neighbors[neighbor_idx]
    }

    /// Whether a new particle may be put on `(x, y)`.
    pub fn can_spawn(&self, x: usize, y: usize) -> (r: bool)
        requires
            self.grid.wf(),
            self.grid@.has(x as int, y as int),
        ensures
            r == self@.spawnable(x as int, y as int),
    {
        let idx: usize = self.get_idx(x, y);
        let outside_radius = if let Some(radius) = self.spawn_radius {
            // need to make sure the distance from x,y to the center is > radius
            proof {
                lemma_dist_in_grid(
                    self.grid@.width as nat,
                    self.grid@.height as nat,
                    x as nat,
                    y as nat,
                    (self.grid@.width / 2) as nat,
                    (self.grid@.height / 2) as nat,
                );
            }
            let dist: usize = self.grid.dist_to_center(x, y);
            dist > radius  // valid points are those outside the radius
        } else {
            true  // if spawn radius isn't set, every point is valid
        };
        !self.grid.filled(idx) && outside_radius
    }

    /// A position for a new particle: one that can take it, unless a
    /// thousand draws found none. Then the grid counts as full, the run is
    /// marked as over, and the position is the last one drawn.
    pub fn random_loc(&mut self) -> (at: (usize, usize))
        requires
            old(self).grid.wf(),
        ensures
            old(self).grid@.has(at.0 as int, at.1 as int),
            final(self)@ == old(self)@.searched(at),
            final(self).wf() == old(self).wf(),
            final(self)@.consistent() == old(self)@.consistent(),
    {
        let mut attempt: usize = 0;
        // loop until we find a position that isn't full, or we hit the retry limit
        loop
            invariant
                attempt < MAX_RETRIES,
                self@ == old(self)@,
                self.grid.wf(),
            decreases MAX_RETRIES - attempt,
        {
            let randx: usize = random_below(self.grid.width);
            let randy: usize = random_below(self.grid.height);
            match Self::after_draw(attempt, self.can_spawn(randx, randy)) {
                Search::Found => {
                    // we found a valid position to move to, carry on
                    return (randx, randy);
                },
                Search::GiveUp => {
                    self.is_complete = true;
                    return (randx, randy);  // this point is already filled in, or didn't meet the radius criteria
                },
                Search::Again(failed) => {
                    attempt = failed;
                },
            }
        }
    }

    /// What a search does after a draw, when `failed_before` draws have
    /// failed and the position drawn now fits or does not.
    pub fn after_draw(failed_before: usize, fits: bool) -> (r: Search)
        requires
            failed_before < MAX_RETRIES,
        ensures
            r == search_after(failed_before as int, fits),
    {
        if fits {
            Search::Found
        } else if failed_before + 1 >= MAX_RETRIES {
            Search::GiveUp
        } else {
            Search::Again(failed_before + 1)
        }
    }

    /// The particle has arrived: it sticks if it touches a filled cell, its
    /// cell is filled, and the run is over once enough particles stuck.
    fn land(&mut self)
        requires
            old(self)@.placed(),
            old(self).stuck_particles < usize::MAX,
        ensures
            final(self)@ == old(self)@.landed(),
    {
        let (x, y) = self.cur_part.pos;
        let idx: usize = self.get_idx(x, y);
        let ghost before = self@;
        // the particle has moved or was just put here: either way it may stick now
        if self.should_stick(x, y) {
            self.cur_part.exists = false;
            self.stuck_particles += 1;
            let filled: bool = self.grid.cells[idx].filled;
            self.grid.cells[idx] = Particle { filled: filled, id: self.stuck_particles };
        } else {
            self.cur_part.exists = true;
        }
        // stuck or not, the particle stands on this cell
        self.grid.set_fill(idx, true);
        if self.stuck_particles >= self.particles {
            self.is_complete = true;  // enough particles have stuck
        }
        assert(self@.board.cells =~= before.landed().board.cells);
    }

    /// Moves the walker to `(x, y)`: its old cell is emptied, and it
    /// arrives on the new one.
    pub fn walk_to(&mut self, x: usize, y: usize)
        requires
            old(self)@.placed(),
            old(self).grid@.has(x as int, y as int),
            old(self).stuck_particles < usize::MAX,
        ensures
            final(self)@ == old(self)@.walked_to((x, y)),
            final(self).wf(),
    {
        let (oldx, oldy) = self.cur_part.pos;
        // the particle is no longer at the old location
        let old_idx: usize = self.get_idx(oldx, oldy);
        self.grid.set_fill(old_idx, false);
        // update cur particle
        self.cur_part = Walker { exists: true, pos: (x, y) };
        proof {
            lemma_landed_wf(self@);
        }
        self.land();
    }

    /// Puts a new particle on `(x, y)`, where it arrives at once.
    pub fn spawn_at(&mut self, x: usize, y: usize)
        requires
            old(self).grid.wf(),
            old(self).grid@.has(x as int, y as int),
            old(self).stuck_particles < usize::MAX,
        ensures
            final(self)@ == old(self)@.spawned_at((x, y)),
            final(self).wf(),
    {
        self.cur_part = Walker { exists: true, pos: (x, y) };
        proof {
            lemma_landed_wf(self@);
        }
        self.land();
    }

    /// Iterates once on the current grid
    ///
    /// If there's an active particle, move it one step in its random walk.
    /// If there's no active particle (the last one stuck), spawn one at a
    /// random empty position. Then check whether the particle stuck, and
    /// mark the simulation complete once the desired number of particles
    /// has stuck. A complete simulation stays as it is.
    pub fn update(&mut self)
        requires
            old(self).wf(),
            !old(self).is_complete ==> old(self).updates < u64::MAX && old(self).stuck_particles
                < usize::MAX,
            !old(self).is_complete && old(self).cur_part.exists ==> old(self).grid@.can_move(
                old(self)@.x(),
                old(self)@.y(),
            ),
        ensures
            old(self)@.steps_to(final(self)@),
            old(self).is_complete ==> *final(self) == *old(self),
            final(self).wf(),
            !old(self).is_complete && !old(self).cur_part.exists && old(self)@.saturated()
                ==> final(self).is_complete,
            old(self)@.consistent() && !old(self)@.crowded_into(final(self)@)
                ==> final(self)@.consistent(),
            old(self).grid@.roomy() && final(self).cur_part.exists ==> final(self).grid@.can_move(
                final(self)@.x(),
                final(self)@.y(),
            ),
            old(self)@.runnable() ==> final(self)@.runnable(),
            final(self).stuck_particles >= old(self).stuck_particles,
            final(self).particles == old(self).particles,
            final(self).paused == old(self).paused,
    {
        if self.is_complete {  // don't let this run if the sim is complete
            proof {
                if self.grid@.roomy() && self.cur_part.exists {
                    lemma_calm_can_move(self@);
                }
            }
            return ;
        }
        self.updates += 1;
        let ghost ticked = self@;
        // either branch gives the particle its new position
        if self.cur_part.exists {
            let (oldx, oldy) = self.cur_part.pos;
            let (newx, newy) = self.random_walk(oldx, oldy);
            self.walk_to(newx, newy);
            proof {
                if old(self)@.consistent() {
                    lemma_walk_consistent(ticked, (newx, newy));
                }
            }
        } else {
            // spawn a new particle at a random location
            let (startx, starty) = self.random_loc();
            self.spawn_at(startx, starty);
            proof {
                assert(old(self)@.saturated() ==> !ticked.spawnable(startx as int, starty as int));
                if old(self)@.consistent() && !old(self).grid@.filled_at(
                    startx as int,
                    starty as int,
                ) {
                    lemma_spawn_consistent(ticked.searched((startx, starty)), (startx, starty));
                }
            }
        }
        proof {
            if self.grid@.roomy() && self.cur_part.exists {
                lemma_calm_can_move(self@);
            }
            if old(self)@.runnable() {
                lemma_runnable_stays(old(self)@, self@);
            }
        }
    }

    /// Paints the cells over the start of `screen`, four bytes a cell:
    /// as many cells as fit, and not more than there are.
    pub fn draw(&self, screen: &mut [u8])
        ensures
            self@.painted(old(screen)@, final(screen)@),
    {
        // both ways of drawing share a loop, but time-coloring has enough of its own to stand apart
        if let Some(theme) = self.theme {
            self.draw_theme(screen, theme);
        } else {
            self.draw_normal(screen);
        }
    }

    /// The place in a gradient of a particle of rank `id`.
    fn bucket_of(&self, id: usize) -> (k: usize)
        ensures
            k == bucket(self@.stuck, id as int),
            k < 10,
    {
        let num_colors: usize = 10;
        let bucket_size: usize = self.stuck_particles / num_colors;
        if bucket_size == 0 {
            0  // avoid divide by 0 if we don't have any stuck particles yet
        } else {
            let tmp: usize = id / bucket_size;
            // dividing by 10 to get bucket size is imprecise. It won't divide perfectly, so some particles will
            // be outside the range. We put them in the last bucket.
            if tmp >= num_colors {
                num_colors - 1
            } else {
                tmp
            }
        }
    }

    /// The number of cells that fit on a screen of `len` bytes.
    fn cells_shown(&self, len: usize) -> (n: usize)
        ensures
            n == self@.shown(len as int),
    {
        if self.grid.cells.len() <= len / 4 {
            self.grid.cells.len()
        } else {
            len / 4
        }
    }

    fn draw_theme(&self, screen: &mut [u8], theme: Theme)
        requires
            self.theme == Some(theme),
        ensures
            self@.painted(old(screen)@, final(screen)@),
    {
        let theme_colors: [Color; 10] = get_gradients(theme);
        let n: usize = self.cells_shown(screen.len());
        let mut i: usize = 0;
        while i < n
            invariant
                i <= n,
                n == self@.shown(old(screen)@.len() as int),
                self.theme == Some(theme),
                theme_colors == theme.gradient(),
                screen@.len() == old(screen)@.len(),
                forall|j: int|
                    0 <= j < 4 * i ==> #[trigger] screen@[j] == self@.shade(
                        self.grid.cells@[j / 4],
                    )[j % 4],
                forall|j: int| 4 * i <= j < screen@.len() ==> #[trigger] screen@[j] == old(screen)@[j],
            decreases n - i,
        {
            let c: Particle = self.grid.cells[i];
            let color: Color = if c.filled {
                let idx: usize = self.bucket_of(c.id);
                theme_colors[idx]
            } else {
                self.empty_color
            };
            Self::paint(screen, i, &color);
            i += 1;
        }
    }

    fn draw_normal(&self, screen: &mut [u8])
        requires
            self.theme is None,
        ensures
            self@.painted(old(screen)@, final(screen)@),
    {
        let n: usize = self.cells_shown(screen.len());
        let mut i: usize = 0;
        while i < n
            invariant
                i <= n,
                n == self@.shown(old(screen)@.len() as int),
                self.theme is None,
                screen@.len() == old(screen)@.len(),
                forall|j: int|
                    0 <= j < 4 * i ==> #[trigger] screen@[j] == self@.shade(
                        self.grid.cells@[j / 4],
                    )[j % 4],
                forall|j: int| 4 * i <= j < screen@.len() ==> #[trigger] screen@[j] == old(screen)@[j],
            decreases n - i,
        {
            let c: Particle = self.grid.cells[i];
            let color: Color = if c.filled {
                self.fill_color
            } else {
                self.empty_color
            };
            Self::paint(screen, i, &color);
            i += 1;
        }
    }

    /// Writes `color` over the four bytes of cell `i`.
    fn paint(screen: &mut [u8], i: usize, color: &Color)
        requires
            4 * i + 4 <= old(screen)@.len(),
        ensures
            final(screen)@.len() == old(screen)@.len(),
            forall|j: int|
                0 <= j < final(screen)@.len() ==> #[trigger] final(screen)@[j] == (if 4 * i <= j < 4
                    * i + 4 {
                    color[j - 4 * i]
                } else {
                    old(screen)@[j]
                }),
    {
        let at: usize = 4 * i;
        screen[at] = color[0];
        screen[at + 1] = color[1];
        screen[at + 2] = color[2];
        screen[at + 3] = color[3];
    }

    /// Whether the state is one that the simulation can be in.
    pub fn is_wf(&self) -> (r: bool)
        ensures
            r == self.wf(),
    {
        if !self.grid.is_wf() {
            return false;
        }
        let (x, y) = self.cur_part.pos;
        if x >= self.grid.width || y >= self.grid.height {
            return false;
        }
        !(self.cur_part.exists && self.should_stick(x, y))
    }

    /// Whether `update` may be called: the run is over, or the counters have
    /// room for one more and a walker, if there is one, has an empty cell to
    /// go to.
    pub fn can_update(&self) -> (r: bool)
        requires
            self.wf(),
        ensures
            r == (self.is_complete || (self.updates < u64::MAX && self.stuck_particles < usize::MAX
                && (self.cur_part.exists ==> self.grid@.can_move(self@.x(), self@.y())))),
    {
        if self.is_complete {
            return true;
        }
        if self.updates == u64::MAX || self.stuck_particles == usize::MAX {
            return false;
        }
        if !self.cur_part.exists {
            return true;
        }
        let (x, y) = self.cur_part.pos;
        let steps = self.free_neighbors(x, y);
        proof {
            if steps@.len() > 0 {
                lemma_free_among_steps(self.grid@, x as int, y as int, 8, 0);
            }
            if self.grid@.can_move(x as int, y as int) {
                let k = choose|k: int|
                    0 <= k < 8 && #[trigger] self.grid@.free_neighbor(x as int, y as int, k);
                lemma_free_among_nonempty(self.grid@, x as int, y as int, 8, k);
            }
        }
        steps.len() > 0
    }

    /// Whether the run can go on without a walker ever being shut in.
    pub fn can_run(&self) -> (r: bool)
        requires
            self.wf(),
        ensures
            r == self@.runnable(),
    {
        if self.grid.width >= 2 || self.grid.height >= 2 || self.is_complete {
            return true;
        }
        if self.cur_part.exists {
            return false;
        }
        // the grid has one cell: it is full if that cell can take no particle
        let fits = self.can_spawn(0, 0);
        proof {
            if !fits {
                assert forall|x: int, y: int| self.grid@.has(x, y) implies !#[trigger] can_take(
                    self.grid@,
                    self.spawn_radius,
                    x,
                    y,
                ) by {
                    assert(x == 0 && y == 0);
                }
            }
        }
        !fits || self.stuck_particles >= self.particles
    }

    /// Run the simulation until all particles have stuck, or until one of
    /// its counters can count no further.
    pub fn run(&mut self)
        requires
            old(self).wf(),
            old(self)@.runnable(),
        ensures
            final(self).wf(),
            exists|n: nat| old(self)@.reaches(final(self)@, n),
            final(self).is_complete || final(self).updates == u64::MAX || final(self).stuck_particles
                == usize::MAX,
            old(self).is_complete ==> *final(self) == *old(self),
            final(self).stuck_particles >= old(self).stuck_particles,
            final(self).particles == old(self).particles,
            final(self).paused == old(self).paused,
    {
        let ghost mut n: nat = 0;
        while !self.is_complete && self.updates < u64::MAX && self.stuck_particles < usize::MAX
            invariant
                self.wf(),
                self@.runnable(),
                old(self)@.reaches(self@, n),
                old(self).is_complete ==> *self == *old(self),
                self.stuck_particles >= old(self).stuck_particles,
                self.particles == old(self).particles,
                self.paused == old(self).paused,
            decreases u64::MAX - self.updates,
        {
            let ghost mid = self@;
            proof {
                lemma_runnable_can_step(mid);
            }
            self.update();
            proof {
                assert(mid.steps_to(self@));
                n = n + 1;
            }
        }
    }

    /// One turn of a worker that holds the simulation: up to ten updates
    /// if it is running, nothing if it is paused or over. The answer is
    /// whether it was running; if not, the worker should rest for a while.
    pub fn work_batch(&mut self) -> (worked: bool)
        requires
            old(self).wf(),
            old(self).paused || old(self)@.runnable(),
        ensures
            final(self).wf(),
            worked == (!old(self).paused && !old(self).is_complete),
            !worked ==> *final(self) == *old(self),
            exists|n: nat|
                {
                    &&& n <= BATCH_SIZE
                    &&& #[trigger] old(self)@.reaches(final(self)@, n)
                    &&& worked && n < BATCH_SIZE ==> !final(self).is_complete && (final(self).updates
                        == u64::MAX || final(self).stuck_particles == usize::MAX)
                },
            final(self).stuck_particles >= old(self).stuck_particles,
            final(self).particles == old(self).particles,
            final(self).paused == old(self).paused,
    {
        if self.paused || self.is_complete {
            assert(old(self)@.reaches(self@, 0));
            return false;
        }
        let ghost mut n: nat = 0;
        let mut i: usize = 0;
        while i < BATCH_SIZE
            invariant
                i <= BATCH_SIZE,
                n <= i,
                n < i ==> !self.is_complete && (self.updates == u64::MAX || self.stuck_particles
                    == usize::MAX),
                self.wf(),
                self@.runnable(),
                old(self)@.reaches(self@, n),
                self.stuck_particles >= old(self).stuck_particles,
                self.particles == old(self).particles,
                self.paused == old(self).paused,
            decreases BATCH_SIZE - i,
        {
            if self.is_complete || (self.updates < u64::MAX && self.stuck_particles < usize::MAX) {
                let ghost mid = self@;
                proof {
                    lemma_runnable_can_step(mid);
                }
                self.update();
                proof {
                    assert(mid.steps_to(self@));
                    n = n + 1;
                }
            }
            i += 1;
        }
        true
    }

    /// A simulation as `config` describes it: seeded, paused, and with no
    /// update made.
    pub fn from(config: &DlaConfig) -> (sim: DlaGrid)
        requires
            config.width > 0,
            config_height(*config) > 0,
            config.width * config_height(*config) <= usize::MAX,
        ensures
            sim.wf(),
            sim@.consistent(),
            sim.grid@.sown(
                chosen_grid_type(bytes_of(config.grid_type)),
                config.width as int,
                config_height(*config),
            ),
            sim@ == Sim::fresh(
                sim.grid@,
                chosen_grid_type(bytes_of(config.grid_type)),
                config.particles as int,
            ),
    {
        let width: u32 = config.width;  // has a default
        // height is optional. defaults to whatever width is
        let height: u32 = if let Some(height) = config.height {
            height
        } else {
            width
        };
        let color: Color = DEFAULT_PART_CLR.get_color();
        let background_color: Color = DEFAULT_BACK_CLR.get_color();
        let grid_type = config.grid_type();  // this will give us a default if user didn't specify
        let grid: Grid = Grid::from(grid_type, width, height);
        // number of stuck particles depends on grid type
        let stuck_particles: usize = grid.stuck_particles();
        DlaGrid {
            grid: grid,
            cur_part: Walker { exists: false, pos: (0, 0) },
            stuck_particles: stuck_particles,
            is_complete: false,
            particles: config.particles,
            updates: 0,
            fill_color: color,
            empty_color: background_color,
            paused: true,
            grid_type: grid_type,
            spawn_radius: None,
            do_resize: false,
            theme: Some(DEFAULT_THEME),
        }
    }

    /// Starts over on a new grid with the pattern `new_grid_type`, of the
    /// given size or else of the size the grid has.
    fn swap_grid_type(&mut self, new_grid_type: GridType, size: Option<(u32, u32)>)
        requires
            old(self).grid.wf(),
            match size {
                Some((width, height)) => sowable(new_grid_type, width as int, height as int),
                None => sowable(new_grid_type, old(self).grid@.width, old(self).grid@.height),
            },
        ensures
            final(self).wf(),
            final(self)@.consistent(),
            match size {
                Some((width, height)) => final(self).grid@.sown(
                    new_grid_type,
                    width as int,
                    height as int,
                ),
                None => final(self).grid@.sown(
                    new_grid_type,
                    old(self).grid@.width,
                    old(self).grid@.height,
                ),
            },
            final(self)@ == old(self)@.reseeded(final(self).grid@, new_grid_type),
    {
        // swapping grid type defaults to use the current width
        let new_grid: Grid = match size {
            Some((width, height)) => Grid::from(new_grid_type, width, height),
            None => Grid::build(new_grid_type, self.grid.width, self.grid.height),
        };
        self.grid = new_grid;
        self.cur_part = Walker { exists: false, pos: (0, 0) };  // reset
        self.stuck_particles = self.grid.stuck_particles();
        self.is_complete = false;  // reset
        self.updates = 0;  // reset
        self.paused = true;  // the new grid waits to be started
        self.grid_type = new_grid_type;
    }

    fn swap_particle_color(&mut self, new_color: ColorName)
        ensures
            final(self)@ == (Sim { fill_color: new_color.color(), ..old(self)@ }),
            final(self).wf() == old(self).wf(),
            final(self)@.consistent() == old(self)@.consistent(),
    {
        self.fill_color = new_color.get_color();
    }

    fn swap_background_color(&mut self, new_color: ColorName)
        ensures
            final(self)@ == (Sim { empty_color: new_color.color(), ..old(self)@ }),
            final(self).wf() == old(self).wf(),
            final(self)@.consistent() == old(self)@.consistent(),
    {
        self.empty_color = new_color.get_color();
    }

    // ----- what a user interface asks -----
    /// Whether the simulation is paused.
    pub fn paused(&self) -> (r: bool)
        ensures
            r == self.paused,
    {
        self.paused
    }

    /// The number of particles that have stuck.
    pub fn stuck_particles(&self) -> (r: usize)
        ensures
            r == self.stuck_particles,
    {
        self.stuck_particles
    }

    /// Whether the run is over.
    pub fn complete(&self) -> (r: bool)
        ensures
            r == self.is_complete,
    {
        self.is_complete
    }

    /// The pattern the grid was seeded with.
    pub fn grid_type(&self) -> (r: GridType)
        ensures
            r == self.grid_type,
    {
        self.grid_type
    }

    /// The width and the height of the grid.
    pub fn size(&self) -> (r: (usize, usize))
        ensures
            r == (self.grid.width, self.grid.height),
    {
        (self.grid.width, self.grid.height)
    }

    // ----- what a user interface tells -----
    /// Particles are shown in `new_color` from now on.
    pub fn handle_particle_color_changed(&mut self, new_color: ColorName)
        ensures
            final(self)@ == (Sim { fill_color: new_color.color(), ..old(self)@ }),
            final(self).wf() == old(self).wf(),
            final(self)@.consistent() == old(self)@.consistent(),
    {
        self.swap_particle_color(new_color);
    }

    /// Particles are shown in the colours of `new_theme` from now on, or in
    /// the plain colour if there is none.
    pub fn handle_theme_changed(&mut self, new_theme: Option<Theme>)
        ensures
            final(self)@ == (Sim { theme: new_theme, ..old(self)@ }),
            final(self).wf() == old(self).wf(),
            final(self)@.consistent() == old(self)@.consistent(),
    {
        self.theme = new_theme;
    }

    /// Empty cells are shown in `new_color` from now on.
    pub fn handle_background_color_changed(&mut self, new_color: ColorName)
        ensures
            final(self)@ == (Sim { empty_color: new_color.color(), ..old(self)@ }),
            final(self).wf() == old(self).wf(),
            final(self)@.consistent() == old(self)@.consistent(),
    {
        self.swap_background_color(new_color);
    }

    /// The run shall end at `particles` stuck particles. Only a simulation
    /// that is paused or over takes a new target.
    pub fn handle_particles_changed(&mut self, particles: usize)
        requires
            old(self).paused || old(self).is_complete,
        ensures
            final(self)@ == old(self)@.retargeted(particles as int),
            final(self).wf() == old(self).wf(),
            final(self)@.consistent() == old(self)@.consistent(),
    {
        if self.is_complete && self.particles < particles {
            // if we were complete, but particles increased, mark as not complete but paused.
            self.is_complete = false;
            self.paused = true;
        } else if self.stuck_particles == particles {
            // the desired number of particles now matches however many are already stuck
            self.is_complete = true;
        }
        // always update particles to reflect what we have been told to use
        self.particles = particles;
    }

    /// Starts over with the pattern `new_grid_type` on a grid of the same
    /// size.
    pub fn handle_grid_type_selected(&mut self, new_grid_type: GridType)
        requires
            old(self).grid.wf(),
            sowable(new_grid_type, old(self).grid@.width, old(self).grid@.height),
        ensures
            final(self).wf(),
            final(self)@.consistent(),
            final(self).grid@.sown(new_grid_type, old(self).grid@.width, old(self).grid@.height),
            final(self)@ == old(self)@.reseeded(final(self).grid@, new_grid_type),
    {
        self.swap_grid_type(new_grid_type, None);
    }

    /// Pauses a running simulation and resumes a paused one. `text` is the
    /// label of the button that was clicked, which must be the one that
    /// fits the state.
    pub fn handle_pause_button_clicked(&mut self, text: &str)
        requires
            text@ == pause_label(old(self).paused),
        ensures
            final(self)@ == (Sim { paused: !old(self).paused, ..old(self)@ }),
            final(self).wf() == old(self).wf(),
            final(self)@.consistent() == old(self)@.consistent(),
    {
        self.paused = !self.paused;
    }

    /// Shows the grid that was read from a file, if one was read: its
    /// filled cells are the stuck particles and the target, the run is over,
    /// nothing walks, and a change of width asks for a resize.
    pub fn handle_from_button_clicked(&mut self, maybe_grid: Option<Grid>)
        requires
            maybe_grid matches Some(grid) ==> grid.wf(),
        ensures
            match maybe_grid {
                Some(grid) => {
                    &&& final(self)@ == old(self)@.loaded(grid@)
                    &&& final(self).wf()
                    &&& final(self)@.consistent()
                },
                None => *final(self) == *old(self),
            },
    {
        // a grid of another width needs a window of another size
        let old_size: usize = self.grid.width;
        if let Some(grid) = maybe_grid {
            self.grid = grid;
        } else {
            return ;  // no grid was read: nothing to show
        }
        // count the stuck particles in the grid we read in
        self.stuck_particles = self.grid.stuck_particles();
        // the target is what has stuck, since the run is marked as over
        self.particles = self.stuck_particles;
        self.is_complete = true;
        self.cur_part = Walker { exists: false, pos: (0, 0) };
        if old_size != self.grid.width {
            // we need to resize everything
            self.do_resize = true;
        }
    }

    /// New particles keep further than `new_radius` from the centre from
    /// now on, or start anywhere if there is none.
    pub fn handle_spawn_radius_changed(&mut self, new_radius: Option<usize>)
        ensures
            final(self)@ == (Sim { radius: new_radius, ..old(self)@ }),
            final(self).wf() == old(self).wf(),
            final(self)@.consistent() == old(self)@.consistent(),
    {
        self.spawn_radius = new_radius;
    }

    /// Starts over with the same pattern on a `width` by `height` grid. A
    /// change of size asks for a resize.
    pub fn handle_reset(&mut self, width: u32, height: u32)
        requires
            old(self).grid.wf(),
            sowable(old(self).grid_type, width as int, height as int),
        ensures
            final(self).wf(),
            final(self)@.consistent(),
            final(self).grid@.sown(old(self).grid_type, width as int, height as int),
            final(self)@ == (Sim {
                do_resize: old(self).do_resize || width != old(self).grid@.width || height != old(self).grid@.height,
                ..old(self)@
            }).reseeded(final(self).grid@, old(self).grid_type),
    {
        let height_option: Option<(u32, u32)> = if width as usize != self.grid.width
            || height as usize != self.grid.height {
            // size changed
            self.do_resize = true;  // whoever draws will handle this when it comes around
            Some((width, height))
        } else {
            // no size change
            None
        };
        self.swap_grid_type(self.grid_type, height_option);
    }
}

impl Default for DlaGrid {
    /// A simulation on 400 by 400 cells with one particle in the middle
    /// and a target of 10,000.
    fn default() -> (sim: DlaGrid)
        ensures
            sim.wf(),
            sim@.consistent(),
            sim.grid@.sown(GridType::Center, 400, 400),
            sim@ == Sim::fresh(sim.grid@, GridType::Center, DEFAULT_PARTICLES as int),
    {
        let (width, height): (u32, u32) = (400, 400);
        let grid_type = GridType::Center;
        let grid = Grid::from(grid_type, width, height);
        let stuck_particles: usize = grid.stuck_particles();
        DlaGrid {
            grid: grid,
            cur_part: Walker { exists: false, pos: (0, 0) },
            stuck_particles: stuck_particles,
            is_complete: false,
            particles: DEFAULT_PARTICLES,
            updates: 0,
            fill_color: DEFAULT_PART_CLR.get_color(),
            empty_color: DEFAULT_BACK_CLR.get_color(),
            paused: true,
            grid_type: grid_type,
            spawn_radius: None,
            do_resize: false,
            theme: Some(DEFAULT_THEME),
        }
    }
}

/// `n` holds the eight positions around `(x, y)`, in their order.
pub open spec fn around(n: [(i128, i128); 8], x: int, y: int) -> bool {
    forall|k: int|
        0 <= k < 8 ==> (#[trigger] n[k]).0 == neighbor(x, y, k).0 && n[k].1 == neighbor(x, y, k).1
}

/// Every position that `free_among` lists is a step from `(x, y)`.
pub proof fn lemma_free_among_steps(b: Board, x: int, y: int, n: int, i: int)
    requires
        b.ok(),
        0 <= n <= 8,
        0 <= i < b.free_among(x, y, n).len(),
    ensures
        b.is_step(x, y, b.free_among(x, y, n)[i]),
        b.free_at(b.free_among(x, y, n)[i].0 as int, b.free_among(x, y, n)[i].1 as int),
    decreases n,
{
    if n > 0 {
        let rest = b.free_among(x, y, n - 1);
        if i < rest.len() {
            lemma_free_among_steps(b, x, y, n - 1, i);
        } else {
            assert(b.free_neighbor(x, y, n - 1));
            let (nx, ny) = neighbor(x, y, n - 1);
            lemma_cell_index_bounds(b.width, b.height, nx, ny);
            assert(nx <= nx + ny * b.width && ny <= nx + ny * b.width) by (nonlinear_arith)
                requires
                    0 <= nx,
                    0 <= ny,
                    0 < b.width,
            ;
        }
    }
}

/// Where a particle at `(x, y)` can move, `free_among` lists a position.
pub proof fn lemma_free_among_nonempty(b: Board, x: int, y: int, n: int, k: int)
    requires
        0 <= k < n <= 8,
        b.free_neighbor(x, y, k),
    ensures
        b.free_among(x, y, n).len() > 0,
    decreases n,
{
    if k < n - 1 {
        lemma_free_among_nonempty(b, x, y, n - 1, k);
    }
}

/// Filling or ranking the cell a particle stands on changes nothing about
/// what it touches.
pub proof fn lemma_touches_ignores_own_cell(b: Board, x: int, y: int, p: Particle)
    requires
        b.ok(),
        b.has(x, y),
    ensures
        b.with(b.index(x, y), p).touches(x, y) == b.touches(x, y),
{
    let t = b.with(b.index(x, y), p);
    lemma_cell_index_bounds(b.width, b.height, x, y);
    assert forall|k: int| 0 <= k < 8 implies #[trigger] t.filled_neighbor(x, y, k)
        == b.filled_neighbor(x, y, k) by {
        let (nx, ny) = neighbor(x, y, k);
        if b.has(nx, ny) {
            lemma_cell_index_bounds(b.width, b.height, nx, ny);
            if b.index(nx, ny) == b.index(x, y) {
                lemma_cell_index_injective(b.width, nx, ny, x, y);
            }
        }
    }
    if b.touches(x, y) {
        let k = choose|k: int| 0 <= k < 8 && #[trigger] b.filled_neighbor(x, y, k);
        assert(t.filled_neighbor(x, y, k));
    }
    if t.touches(x, y) {
        let k = choose|k: int| 0 <= k < 8 && #[trigger] t.filled_neighbor(x, y, k);
        assert(b.filled_neighbor(x, y, k));
    }
}

/// After a particle has arrived, the state is one the simulation can be
/// in: a walker that goes on touches no filled cell.
pub proof fn lemma_landed_wf(s: Sim)
    requires
        s.placed(),
    ensures
        s.landed().wf(),
{
    let t = s.landed();
    let i = s.board.index(s.x(), s.y());
    lemma_cell_index_bounds(s.board.width, s.board.height, s.x(), s.y());
    lemma_touches_ignores_own_cell(s.board, s.x(), s.y(), t.board.cells[i]);
}

/// On a grid of more than one cell, a walker that touches no filled cell
/// has an empty cell to move to.
pub proof fn lemma_calm_can_move(s: Sim)
    requires
        s.wf(),
        s.board.roomy(),
        s.walker.exists,
    ensures
        s.board.can_move(s.x(), s.y()),
{
    let x = s.x();
    let y = s.y();
    let k: int = if x + 1 < s.board.width {
        4
    } else if x >= 1 {
        3
    } else if y + 1 < s.board.height {
        6
    } else {
        1
    };
    assert(s.board.has(neighbor(x, y, k).0, neighbor(x, y, k).1));
    assert(!s.board.filled_neighbor(x, y, k));
    assert(s.board.free_neighbor(x, y, k));
}

/// A step of the walker keeps the count of stuck particles in line with
/// the filled cells.
pub proof fn lemma_walk_consistent(s: Sim, to: (usize, usize))
    requires
        s.placed(),
        s.walker.exists,
        s.consistent(),
        s.board.is_step(s.x(), s.y(), to),
    ensures
        s.walked_to(to).consistent(),
{
    let x = s.x();
    let y = s.y();
    let i = s.board.index(x, y);
    let j = s.board.index(to.0 as int, to.1 as int);
    let k = choose|k: int|
        0 <= k < 8 && #[trigger] s.board.free_neighbor(x, y, k) && neighbor(x, y, k) == (
            to.0 as int,
            to.1 as int,
        );
    lemma_cell_index_bounds(s.board.width, s.board.height, x, y);
    lemma_cell_index_bounds(s.board.width, s.board.height, to.0 as int, to.1 as int);
    if i == j {
        lemma_cell_index_injective(s.board.width, x, y, to.0 as int, to.1 as int);
    }
    let left = Sim {
        board: s.board.with_fill(i, false),
        walker: Walker { exists: true, pos: to },
        ..s
    };
    let t = left.landed();
    assert(t == s.walked_to(to));
    lemma_count_filled_update(left.board.cells, j, t.board.cells[j]);
    if t.walker.exists {
        lemma_count_filled_update(
            t.board.cells,
            j,
            Particle { filled: false, id: t.board.cells[j].id },
        );
    }
}

/// A new particle on an empty cell keeps the count of stuck particles in
/// line with the filled cells.
pub proof fn lemma_spawn_consistent(s: Sim, at: (usize, usize))
    requires
        s.board.ok(),
        s.board.has(at.0 as int, at.1 as int),
        !s.walker.exists,
        s.consistent(),
        !s.board.filled_at(at.0 as int, at.1 as int),
    ensures
        s.spawned_at(at).consistent(),
{
    let j = s.board.index(at.0 as int, at.1 as int);
    lemma_cell_index_bounds(s.board.width, s.board.height, at.0 as int, at.1 as int);
    let t = s.spawned_at(at);
    lemma_count_filled_update(s.board.cells, j, t.board.cells[j]);
    if t.walker.exists {
        lemma_count_filled_update(
            t.board.cells,
            j,
            Particle { filled: false, id: t.board.cells[j].id },
        );
    }
}

/// A step of the walker ends on a cell that was empty before the step.
pub proof fn lemma_step_lands_on_empty(b: Board, x: int, y: int, to: (usize, usize))
    requires
        b.is_step(x, y, to),
    ensures
        b.free_at(to.0 as int, to.1 as int),
{
}

/// An update leaves the simulation in a state it can be in. The grid
/// keeps its size, and the walker stays on it.
pub proof fn lemma_step_keeps_wf(s: Sim, next: Sim)
    requires
        s.wf(),
        s.steps_to(next),
    ensures
        next.wf(),
        next.board.width == s.board.width,
        next.board.height == s.board.height,
        0 <= next.x() < next.board.width,
        0 <= next.y() < next.board.height,
{
    if !s.complete {
        if s.walker.exists {
            let i = s.board.index(s.x(), s.y());
            lemma_cell_index_bounds(s.board.width, s.board.height, s.x(), s.y());
            lemma_landed_wf(
                Sim {
                    board: s.board.with_fill(i, false),
                    walker: Walker { exists: true, pos: next.walker.pos },
                    ..s.ticked()
                },
            );
        } else {
            lemma_landed_wf(
                Sim {
                    walker: Walker { exists: true, pos: next.walker.pos },
                    ..s.ticked().searched(next.walker.pos)
                },
            );
        }
    }
}

/// However many updates are made, the simulation stays in a state it can
/// be in: the walker never leaves the grid.
pub proof fn lemma_reaches_keeps_wf(s: Sim, last: Sim, n: nat)
    requires
        s.wf(),
        s.reaches(last, n),
    ensures
        last.wf(),
        last.board.width == s.board.width,
        last.board.height == s.board.height,
    decreases n,
{
    if n > 0 {
        let mid = choose|mid: Sim| s.reaches(mid, (n - 1) as nat) && #[trigger] mid.steps_to(last);
        lemma_reaches_keeps_wf(s, mid, (n - 1) as nat);
        lemma_step_keeps_wf(mid, last);
    }
}

/// An update keeps the count of stuck particles equal to the number of
/// filled cells that hold one, unless it has put a new particle on a filled
/// cell for want of an empty one.
pub proof fn lemma_step_keeps_count(s: Sim, next: Sim)
    requires
        s.wf(),
        s.consistent(),
        s.steps_to(next),
        !s.crowded_into(next),
    ensures
        next.consistent(),
{
    if !s.complete {
        if s.walker.exists {
            lemma_walk_consistent(s.ticked(), next.walker.pos);
        } else {
            lemma_spawn_consistent(s.ticked().searched(next.walker.pos), next.walker.pos);
        }
    }
}

/// A simulation that starts on a grid, starts over on one or shows a loaded
/// one is in a state it can be in, with the right count of stuck particles.
pub proof fn lemma_starts_consistent(s: Sim, board: Board, kind: GridType, target: int)
    requires
        board.ok(),
    ensures
        Sim::fresh(board, kind, target).wf(),
        Sim::fresh(board, kind, target).consistent(),
        s.reseeded(board, kind).wf(),
        s.reseeded(board, kind).consistent(),
        s.loaded(board).wf(),
        s.loaded(board).consistent(),
{
}

/// However many updates are made from a state in which the count of stuck
/// particles is right, the count stays right for as long as the run goes on.
/// Only the update that ends a run for want of room can spoil it.
pub proof fn lemma_reaches_keeps_count(s: Sim, last: Sim, n: nat)
    requires
        s.wf(),
        s.consistent(),
        s.reaches(last, n),
    ensures
        last.consistent() || last.complete,
    decreases n,
{
    if n > 0 {
        let mid = choose|mid: Sim| s.reaches(mid, (n - 1) as nat) && #[trigger] mid.steps_to(last);
        lemma_reaches_keeps_count(s, mid, (n - 1) as nat);
        lemma_reaches_keeps_wf(s, mid, (n - 1) as nat);
        if !mid.complete {
            if mid.crowded_into(last) {
                assert(!mid.ticked().spawnable(last.x(), last.y()));
            } else {
                lemma_step_keeps_count(mid, last);
            }
        }
    }
}

/// In a state from which the run can go on, a walker that is to move has
/// an empty cell to go to.
pub proof fn lemma_runnable_can_step(s: Sim)
    requires
        s.wf(),
        s.runnable(),
    ensures
        !s.complete && s.walker.exists ==> s.board.can_move(s.x(), s.y()),
{
    if !s.complete && s.walker.exists {
        lemma_calm_can_move(s);
    }
}

/// A run that can go on can still go on after an update.
pub proof fn lemma_runnable_stays(s: Sim, next: Sim)
    requires
        s.runnable(),
        s.steps_to(next),
    ensures
        next.runnable(),
{
    if !s.complete && !s.board.roomy() {
        if s.saturated() {
            lemma_full_grid_ends(s, next);
        }
    }
}

/// A run that is over is not changed by an update.
pub proof fn lemma_complete_stays(s: Sim, next: Sim)
    requires
        s.complete,
        s.steps_to(next),
    ensures
        next == s,
{
}

/// Where no position can take a new particle and none is walking, one
/// update ends the run.
pub proof fn lemma_full_grid_ends(s: Sim, next: Sim)
    requires
        !s.walker.exists,
        s.saturated(),
        s.steps_to(next),
    ensures
        next.complete,
{
    if !s.complete {
        assert(!s.ticked().spawnable(next.x(), next.y()));
    }
}

/// An update ends a run for one of two reasons: enough particles have
/// stuck, or no place was found for a new one.
pub proof fn lemma_end_has_a_reason(s: Sim, next: Sim)
    requires
        !s.complete,
        s.steps_to(next),
        next.complete,
    ensures
        next.stuck >= next.target || (!s.walker.exists && !s.spawnable(next.x(), next.y())),
{
    if !s.walker.exists {
        assert(s.ticked().spawnable(next.x(), next.y()) == s.spawnable(next.x(), next.y()));
    }
}

/// The update in which the last particle sticks leaves no walker behind.
pub proof fn lemma_last_particle_leaves_no_walker(s: Sim, next: Sim)
    requires
        s.stuck < s.target,
        s.steps_to(next),
        next.stuck >= next.target,
    ensures
        next.complete,
        !next.walker.exists,
        next.stuck == s.stuck + 1,
{
}

} // verus!
