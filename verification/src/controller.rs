//! The glue between input events and the drawing-to-inference pipeline.
//!
//! The controller owns the one board and the one adapter of a session. It
//! consumes the logical events of the host input system one at a time and
//! answers with the outside work the host must perform: nothing, quit, or
//! one synchronous classifier invocation on a freshly normalized snapshot
//! of the board. When the host has run the classifier it hands the
//! resulting distribution back through [`Controller::record_scores`], so
//! results always reflect the board exactly as of the triggering event.

use vstd::prelude::*;

verus! {

use crate::board::BoardState;
use crate::coords::{
    get_board_pixel, strictly_inside, BOARD_ORIGIN_X, BOARD_ORIGIN_Y, CELL_SIZE,
};
use crate::inference::{running_max, InferenceAdapter, NUM_CLASSES};
use crate::normalize::{norm_value, normalize, NORM_MEAN, NORM_SCALE};
use crate::{BOARD_HEIGHT, BOARD_WIDTH, FIXED_ONE, IMAGE_SIZE};

/// One logical event from the host input system.
#[derive(Debug, Clone, Copy)]
pub enum InputEvent {
    /// The drawing button went down.
    PointerDown,
    /// The drawing button went up.
    PointerUp,
    /// The pointer moved to this position, in window coordinates.
    PointerMove { x: i32, y: i32 },
    /// The user asked for a blank board.
    ClearBoard,
    /// The user asked to end the session.
    Quit,
}

/// The outside work the host must perform after an event.
#[derive(Debug)]
pub enum Action {
    /// Nothing to do beyond the next display refresh.
    Idle,
    /// Invoke the classifier on this normalized sample and hand the
    /// resulting distribution back through [`Controller::record_scores`].
    RunInference(Vec<i32>),
    /// End the session.
    Quit,
}

/// Two adapters agree on everything the display layer can observe.
pub open spec fn adapter_eq(a: InferenceAdapter, b: InferenceAdapter) -> bool {
    &&& a.predicted == b.predicted
    &&& a.probabilities@ == b.probabilities@
    &&& a.highest_probability == b.highest_probability
}

/// Exclusive owner of the session state: the board, the adapter, and
/// whether the drawing button is currently held.
pub struct Controller {
    /// The one drawing surface of the session.
    pub board: BoardState,
    /// The one inference adapter of the session.
    pub adapter: InferenceAdapter,
    /// The drawing button is currently held down.
    pub mouse_down: bool,
}

impl Controller {
    /// The board and the adapter are both well formed.
    pub open spec fn wf(self) -> bool {
        &&& self.board.wf()
        &&& self.adapter.wf()
    }

    /// A fresh session: blank board, fresh adapter, button up.
    pub fn new() -> (c: Controller)
        ensures
            c.wf(),
            !c.mouse_down,
            forall|i: int| 0 <= i < c.board@.len() ==> c.board@[i] == 0,
            c.adapter.predicted == 0,
            c.adapter.highest_probability == 0,
    {
        Controller { board: BoardState::new(), adapter: InferenceAdapter::new(), mouse_down: false }
    }

    /// Processes one input event and returns the outside work it entails.
    ///
    /// A pointer move while the button is held and the pointer is strictly
    /// inside the canvas sets the cell under the pointer and asks for one
    /// classifier invocation on the normalized snapshot of the new board;
    /// every other event touches at most the button state or clears the
    /// board. The adapter is never changed here — in particular, clearing
    /// the board does not reset the running best guess.
    pub fn handle_event(&mut self, event: InputEvent) -> (a: Action)
        requires
            old(self).wf(),
        ensures
            final(self).wf(),
            adapter_eq(final(self).adapter, old(self).adapter),
            event matches InputEvent::Quit ==> {
                &&& a is Quit
                &&& final(self).board@ == old(self).board@
                &&& final(self).mouse_down == old(self).mouse_down
            },
            event matches InputEvent::PointerDown ==> {
                &&& a is Idle
                &&& final(self).board@ == old(self).board@
                &&& final(self).mouse_down
            },
            event matches InputEvent::PointerUp ==> {
                &&& a is Idle
                &&& final(self).board@ == old(self).board@
                &&& !final(self).mouse_down
            },
            event matches InputEvent::ClearBoard ==> {
                &&& a is Idle
                &&& final(self).board@.len() == IMAGE_SIZE
                &&& forall|i: int| 0 <= i < final(self).board@.len() ==> final(self).board@[i] == 0
                &&& final(self).mouse_down == old(self).mouse_down
            },
            event matches InputEvent::PointerMove { x, y } ==> {
                &&& final(self).mouse_down == old(self).mouse_down
                &&& if old(self).mouse_down && strictly_inside(
                    x as int,
                    y as int,
                    BOARD_ORIGIN_X as int,
                    BOARD_ORIGIN_Y as int,
                    CELL_SIZE as int,
                    BOARD_WIDTH as int,
                    BOARD_HEIGHT as int,
                ) {
                    let cx = (x - BOARD_ORIGIN_X) / (CELL_SIZE as int);
                    let cy = (y - BOARD_ORIGIN_Y) / (CELL_SIZE as int);
                    &&& final(self).board@ == old(self).board@.update(
                        cy * BOARD_WIDTH + cx,
                        FIXED_ONE,
                    )
                    &&& a matches Action::RunInference(s) && s@.len() == IMAGE_SIZE
                        && forall|i: int|
                        0 <= i < s@.len() ==> #[trigger] s@[i] == norm_value(
                            final(self).board@[i] as int,
                            NORM_MEAN as int,
                            NORM_SCALE as int,
                        )
                } else {
                    &&& a is Idle
                    &&& final(self).board@ == old(self).board@
                }
            },
    {
        match event {
            InputEvent::Quit => Action::Quit,
            InputEvent::PointerDown => {
                self.mouse_down = true;
                Action::Idle
            },
            InputEvent::PointerUp => {
                self.mouse_down = false;
                Action::Idle
            },
            InputEvent::ClearBoard => {
                self.board.clear();
                Action::Idle
            },
            InputEvent::PointerMove { x, y } => {
                if self.mouse_down {
                    match get_board_pixel(x, y) {
                        Some((cx, cy)) => {
                            self.board.set_pixel(cx, cy);
                            let snap = self.board.snapshot();
                            let sample = normalize(&snap, NORM_MEAN, NORM_SCALE);
                            Action::RunInference(sample)
                        },
                        None => Action::Idle,
                    }
                } else {
                    Action::Idle
                }
            },
        }
    }

    /// Records the distribution one classifier invocation returned: the
    /// stored probabilities are replaced and the running best guess moves
    /// only upward, exactly as in
    /// [`InferenceAdapter::apply_scores`](crate::inference::InferenceAdapter::apply_scores).
    pub fn record_scores(&mut self, scores: &Vec<i32>)
        requires
            old(self).wf(),
            scores@.len() == NUM_CLASSES,
            forall|i: int| 0 <= i < scores@.len() ==> 0 <= #[trigger] scores@[i] <= FIXED_ONE,
        ensures
            final(self).wf(),
            final(self).board@ == old(self).board@,
            final(self).mouse_down == old(self).mouse_down,
            final(self).adapter.probabilities@ == scores@,
            final(self).adapter.highest_probability == running_max(
                old(self).adapter.highest_probability as int,
                scores@,
            ),
            final(self).adapter.highest_probability > old(self).adapter.highest_probability ==> {
                &&& final(self).adapter.predicted < scores@.len()
                &&& scores@[final(self).adapter.predicted as int]
                    == final(self).adapter.highest_probability
                &&& forall|j: int|
                    0 <= j < final(self).adapter.predicted
                        ==> #[trigger] scores@[j] < final(self).adapter.highest_probability
            },
            final(self).adapter.highest_probability == old(self).adapter.highest_probability
                ==> final(self).adapter.predicted == old(self).adapter.predicted,
    {
        self.adapter.apply_scores(scores);
    }
}

} // verus!
