//! Grids as bytes: what is written to a file and read back from it.
//!
//! The bytes are those of bincode for the cells, the width and the height,
//! in this order: the number of cells, then a byte and a rank for each cell,
//! then the two sides, every integer eight bytes wide with the low byte
//! first.

use crate::grid::{Board, Grid, Particle};
use vstd::bytes::{lemma_auto_spec_u64_to_from_le_bytes, spec_u64_to_le_bytes};
use vstd::prelude::*;

verus! {

/// Why bincode could not write or read a value.
#[verifier::external_type_specification]
#[verifier::external_body]
pub struct ExErrorKind(bincode::ErrorKind);

/// The byte that stands for a flag: 1 for true, 0 for false.
pub open spec fn flag_byte(flag: bool) -> u8 {
    if flag {
        1
    } else {
        0
    }
}

/// The bytes of cells, one after the other: for each the byte of its flag
/// and the eight bytes of its rank, low byte first.
pub open spec fn cells_layout(cells: Seq<(bool, u64)>) -> Seq<u8>
    decreases cells.len(),
{
    if cells.len() == 0 {
        Seq::empty()
    } else {
        cells_layout(cells.drop_last()) + seq![flag_byte(cells.last().0)] + spec_u64_to_le_bytes(
            cells.last().1,
        )
    }
}

/// The bytes of cells, width and height: the number of cells, the cells,
/// the width and the height, every integer in eight bytes, low byte first.
pub open spec fn layout(cells: Seq<(bool, u64)>, width: u64, height: u64) -> Seq<u8> {
    spec_u64_to_le_bytes(cells.len() as u64) + cells_layout(cells) + spec_u64_to_le_bytes(width)
        + spec_u64_to_le_bytes(height)
}

/// What an attempt to read gave: the values, or nothing where it failed.
pub open spec fn outcome(r: Result<(Vec<(bool, u64)>, u64, u64), bincode::Error>) -> Option<
    (Seq<(bool, u64)>, u64, u64),
> {
    match r {
        Ok(v) => Some((v.0@, v.1, v.2)),
        Err(_) => None,
    }
}

/// Calls `bincode::serialize` on the cells, the width and the height, as
/// one tuple. With the settings of that function bincode writes a sequence
/// as its length and its items, a tuple as its parts, a flag as one byte
/// and every integer in eight bytes, low byte first; and with no limit on
/// the size and a vector to write to, it has no error to give for such a
/// value. So the call gives bytes, and they are `layout` of the values.
#[verifier::external_body]
fn bincode_serialize(cells: &Vec<(bool, u64)>, width: u64, height: u64) -> (r: Result<Vec<u8>, bincode::Error>)
    ensures
        given(r) == Some(layout(cells@, width, height)),
{
    bincode::serialize(&(cells, width, height))
}

/// Calls `bincode::deserialize` for a tuple of cells, width and height.
/// With the settings of that function bincode reads what it would have
/// written, in the same order, takes no byte but 0 and 1 for a flag, and
/// passes over the bytes that follow. So what it reads has its layout at
/// the start of the bytes; and where the layout of some cells, width and
/// height stands at the start, it reads these.
#[verifier::external_body]
fn bincode_deserialize(bytes: &[u8]) -> (r: Result<(Vec<(bool, u64)>, u64, u64), bincode::Error>)
    ensures
        outcome(r) matches Some(v) ==> layout(v.0, v.1, v.2).is_prefix_of(bytes@),
        forall|cells: Seq<(bool, u64)>, width: u64, height: u64|
            cells.len() <= usize::MAX && (#[trigger] layout(cells, width, height)).is_prefix_of(
                bytes@,
            ) ==> outcome(r) == Some((cells, width, height)),
{
    bincode::deserialize(bytes)
}

/// The cells of a grid as they are written: whether each is filled, and
/// its rank.
pub open spec fn written_cells(cells: Seq<Particle>) -> Seq<(bool, u64)> {
    Seq::new(cells.len(), |i: int| (cells[i].filled, cells[i].id as u64))
}

/// The cells of a grid as they are read: the inverse of `written_cells`.
pub open spec fn read_cells(cells: Seq<(bool, u64)>) -> Seq<Particle> {
    Seq::new(cells.len(), |i: int| Particle { filled: cells[i].0, id: cells[i].1 as usize })
}

/// The bytes of a grid.
pub open spec fn image(board: Board) -> Seq<u8> {
    layout(written_cells(board.cells), board.width as u64, board.height as u64)
}

/// The grid that cells, width and height make, if they make one: the
/// sides are positive, there are width times height cells, and no more than
/// can be counted, and every rank can be counted too.
pub open spec fn assembled(cells: Seq<(bool, u64)>, width: u64, height: u64) -> Option<Board> {
    if width > 0 && height > 0 && width * height <= usize::MAX && cells.len() == width * height
        && (forall|i: int| 0 <= i < cells.len() ==> (#[trigger] cells[i]).1 <= usize::MAX) {
        Some(Board { cells: read_cells(cells), width: width as int, height: height as int })
    } else {
        None
    }
}

/// `bytes` begin with the bytes of the grid `board`.
pub open spec fn holds(bytes: Seq<u8>, board: Board) -> bool {
    board.ok() && image(board).is_prefix_of(bytes)
}

/// The bytes of cells, width and height are 24 and nine for each cell.
pub proof fn lemma_layout_len(cells: Seq<(bool, u64)>, width: u64, height: u64)
    ensures
        cells_layout(cells).len() == 9 * cells.len(),
        layout(cells, width, height).len() == 24 + 9 * cells.len(),
    decreases cells.len(),
{
    lemma_auto_spec_u64_to_from_le_bytes();
    if cells.len() > 0 {
        lemma_layout_len(cells.drop_last(), width, height);
    }
}

/// What is read of a grid, if it makes a grid, is what is written of that
/// grid.
pub proof fn lemma_written_assembled(cells: Seq<(bool, u64)>, width: u64, height: u64)
    requires
        assembled(cells, width, height) is Some,
    ensures
        assembled(cells, width, height)->Some_0.ok(),
        image(assembled(cells, width, height)->Some_0) == layout(cells, width, height),
{
    let board = assembled(cells, width, height)->Some_0;
    assert(written_cells(board.cells) =~= cells);
}

/// What is written of a grid makes this grid again.
pub proof fn lemma_assembled_written(board: Board)
    requires
        board.ok(),
    ensures
        assembled(written_cells(board.cells), board.width as u64, board.height as u64) == Some(
            board,
        ),
{
    let cells = written_cells(board.cells);
    assert(board.width <= board.width * board.height && board.height <= board.width * board.height)
        by (nonlinear_arith)
        requires
            board.width > 0,
            board.height > 0,
    ;
    assert(read_cells(cells) =~= board.cells);
    assert(cells.len() <= usize::MAX);
}

impl Grid {
    /// The bytes of this grid.
    pub fn to_bytes(&self) -> (r: Option<Vec<u8>>)
        ensures
            r matches Some(bytes) && bytes@ == image(self@),
    {
        let mut cells: Vec<(bool, u64)> = Vec::new();
        let mut i: usize = 0;
        while i < self.cells.len()
            invariant
                i <= self.cells@.len(),
                cells@.len() == i,
                forall|j: int|
                    0 <= j < i ==> #[trigger] cells@[j] == (
                        self.cells@[j].filled,
                        self.cells@[j].id as u64,
                    ),
            decreases self.cells@.len() - i,
        {
            let cell: Particle = self.cells[i];
            cells.push((cell.filled, cell.id as u64));
            i += 1;
        }
        assert(cells@ =~= written_cells(self.cells@));
        match bincode_serialize(&cells, self.width as u64, self.height as u64) {
            Ok(bytes) => Some(bytes),
            Err(_) => None,
        }
    }

    /// The grid that cells, width and height make, if they make one.
    pub fn from_parts(cells: Vec<(bool, u64)>, width: u64, height: u64) -> (r: Option<Grid>)
        ensures
            match assembled(cells@, width, height) {
                Some(board) => r matches Some(grid) && grid@ == board && grid.wf(),
                None => r is None,
            },
    {
        if width == 0 || height == 0 {
            return None;
        }
        let size: u64 = match width.checked_mul(height) {
            Some(size) => size,
            None => {
                return None;
            },
        };
        if size > usize::MAX as u64 || cells.len() as u64 != size {
            return None;
        }
        assert(width <= size && height <= size) by (nonlinear_arith)
            requires
                size == width * height,
                width > 0,
                height > 0,
        ;
        let mut particles: Vec<Particle> = Vec::new();
        let mut i: usize = 0;
        while i < cells.len()
            invariant
                i <= cells@.len(),
                particles@.len() == i,
                forall|j: int| 0 <= j < i ==> (#[trigger] cells@[j]).1 <= usize::MAX,
                forall|j: int|
                    0 <= j < i ==> #[trigger] particles@[j] == (Particle {
                        filled: cells@[j].0,
                        id: cells@[j].1 as usize,
                    }),
            decreases cells@.len() - i,
        {
            let (filled, id) = cells[i];
            if id > usize::MAX as u64 {
                return None;
            }
            particles.push(Particle { filled: filled, id: id as usize });
            i += 1;
        }
        assert(particles@ =~= read_cells(cells@));
        Some(Grid { cells: particles, width: width as usize, height: height as usize })
    }

    /// The grid whose bytes stand at the start of `bytes`, if there is one.
    /// Bytes that follow the grid are passed over.
    pub fn from_bytes(bytes: &[u8]) -> (r: Option<Grid>)
        ensures
            r matches Some(grid) ==> holds(bytes@, grid@),
            forall|board: Board| #[trigger]
                holds(bytes@, board) ==> (r matches Some(grid) && grid@ == board),
            forall|board: Board|
                board.ok() && bytes@ == #[trigger] image(board) ==> (r matches Some(grid) && grid@
                    == board),
    {
        let read = bincode_deserialize(bytes);
        proof {
            assert forall|board: Board| #[trigger] holds(bytes@, board) implies outcome(read)
                == Some(
                (written_cells(board.cells), board.width as u64, board.height as u64),
            ) && assembled(
                written_cells(board.cells),
                board.width as u64,
                board.height as u64,
            ) == Some(board) by {
                lemma_assembled_written(board);
            }
            assert forall|board: Board|
                board.ok() && bytes@ == #[trigger] image(board) implies holds(bytes@, board) by {
                assert(image(board) =~= bytes@.subrange(0, image(board).len() as int));
            }
        }
        match read {
            Ok((cells, width, height)) => {
                proof {
                    if assembled(cells@, width, height) is Some {
                        lemma_written_assembled(cells@, width, height);
                    }
                }
                Self::from_parts(cells, width, height)
            },
            Err(_) => None,
        }
    }
}

/// What an attempt to write gave: the bytes, or nothing where it failed.
pub open spec fn given(r: Result<Vec<u8>, bincode::Error>) -> Option<Seq<u8>> {
    match r {
        Ok(bytes) => Some(bytes@),
        Err(_) => None,
    }
}

} // verus!
