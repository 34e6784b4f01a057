//! The discretized drawing surface.
//!
//! The board is a fixed 28x28 grid of binary intensities stored row-major:
//! a cell is either unset (`0`) or fully set ([`FIXED_ONE`]); the board is
//! never partially shaded. It is created blank, mutated in place by
//! [`BoardState::set_pixel`] and [`BoardState::clear`], and read through
//! independent snapshots.

use vstd::prelude::*;

verus! {

use crate::{BOARD_HEIGHT, BOARD_WIDTH, FIXED_ONE, IMAGE_SIZE};
use vstd::pervasive::VecAdditionalExecFns;

/// The 28x28 binary drawing grid, row-major: the cell at column `x` and row
/// `y` sits at index `y * 28 + x`.
pub struct BoardState {
    cells: Vec<i32>,
}

impl View for BoardState {
    type V = Seq<i32>;

    closed spec fn view(&self) -> Seq<i32> {
        self.cells@
    }
}

impl BoardState {
    /// The grid holds exactly one intensity per cell, and every intensity is
    /// either unset or fully set.
    pub open spec fn wf(self) -> bool {
        &&& self@.len() == IMAGE_SIZE
        &&& forall|i: int|
            0 <= i < self@.len() ==> (#[trigger] self@[i] == 0 || self@[i] == FIXED_ONE)
    }

    /// Creates a blank board: every cell unset.
    pub fn new() -> (b: BoardState)
        ensures
            b.wf(),
            b@.len() == IMAGE_SIZE,
            forall|i: int| 0 <= i < b@.len() ==> b@[i] == 0,
    {
        let mut cells: Vec<i32> = Vec::new();
        let mut i: usize = 0;
        while i < IMAGE_SIZE
            invariant
                i <= IMAGE_SIZE,
                cells@.len() == i,
                forall|j: int| 0 <= j < i ==> cells@[j] == 0,
            decreases IMAGE_SIZE - i,
        {
            cells.push(0);
            i = i + 1;
        }
        BoardState { cells }
    }

    /// Sets the cell at column `x`, row `y` to full intensity; every other
    /// cell keeps its value. Setting an already-set cell changes nothing.
    pub fn set_pixel(&mut self, x: usize, y: usize)
        requires
            old(self).wf(),
            x < BOARD_WIDTH,
            y < BOARD_HEIGHT,
        ensures
            final(self).wf(),
            final(self)@ == old(self)@.update(y * BOARD_WIDTH + x, FIXED_ONE),
    {
        let idx: usize = y * BOARD_WIDTH + x;
        self.cells.set(idx, FIXED_ONE);
    }

    /// Resets every cell to unset.
    pub fn clear(&mut self)
        requires
            old(self).wf(),
        ensures
            final(self).wf(),
            final(self)@.len() == IMAGE_SIZE,
            forall|i: int| 0 <= i < final(self)@.len() ==> final(self)@[i] == 0,
    {
        let mut i: usize = 0;
        while i < IMAGE_SIZE
            invariant
                i <= IMAGE_SIZE,
                self.cells@.len() == IMAGE_SIZE,
                forall|j: int| 0 <= j < i ==> self.cells@[j] == 0,
            decreases IMAGE_SIZE - i,
        {
            self.cells.set(i, 0);
            i = i + 1;
        }
    }

    /// Returns the full grid, flattened row-major, as an independent copy:
    /// later board mutations do not change a snapshot already taken.
    pub fn snapshot(&self) -> (s: Vec<i32>)
        requires
            self.wf(),
        ensures
            s@ == self@,
    {
        let mut s: Vec<i32> = Vec::new();
        let mut i: usize = 0;
        while i < self.cells.len()
            invariant
                i <= self.cells@.len(),
                s@ == self.cells@.take(i as int),
            decreases self.cells@.len() - i,
        {
            s.push(self.cells[i]);
            proof {
                assert(s@ =~= self.cells@.take(i + 1));
            }
            i = i + 1;
        }
        proof {
            assert(s@ =~= self.cells@);
        }
        s
    }
}

/// Setting the same cell twice leaves the board exactly as setting it once:
/// `set_pixel` is idempotent on the grid contents.
pub proof fn lemma_set_pixel_idempotent(cells: Seq<i32>, x: int, y: int)
    requires
        0 <= x < BOARD_WIDTH,
        0 <= y < BOARD_HEIGHT,
        cells.len() == IMAGE_SIZE,
    ensures
        cells.update(y * BOARD_WIDTH + x, FIXED_ONE).update(y * BOARD_WIDTH + x, FIXED_ONE)
            == cells.update(y * BOARD_WIDTH + x, FIXED_ONE),
{
    let idx = y * BOARD_WIDTH + x;
    assert(cells.update(idx, FIXED_ONE).update(idx, FIXED_ONE) =~= cells.update(idx, FIXED_ONE));
}

} // verus!
