//! What the renderer needs from the core when it draws a candidate
//! summary: which window of the candidate list to show. The drawing
//! itself — prompt, colors, terminal control — lives outside the core.

use vstd::prelude::*;

verus! {

/// At most this many candidates are shown at once.
pub const COMPLETION_DISPLAY_LIMIT: usize = 10;

/// Rendering support.
pub struct UI;

impl UI {
    /// Where the shown window of `total` candidates starts: at the top
    /// while everything fits or the selection is in the first half-window,
    /// at the bottom while the selection is in the last half-window, and
    /// otherwise centered on the selection. Without a selection the window
    /// starts at the top.
    pub fn completion_window_start(total: usize, selected: Option<usize>) -> (start: usize)
        requires
            selected is Some ==> (selected->0 as int) < total,
        ensures
            ({
                let current = if selected is Some {
                    selected->0 as int
                } else {
                    0
                };
                if total <= COMPLETION_DISPLAY_LIMIT {
                    start == 0
                } else if current < COMPLETION_DISPLAY_LIMIT / 2 {
                    start == 0
                } else if current > total - COMPLETION_DISPLAY_LIMIT / 2 {
                    start == total - COMPLETION_DISPLAY_LIMIT
                } else {
                    start == current - COMPLETION_DISPLAY_LIMIT / 2
                }
            }),
            start == 0 || start + COMPLETION_DISPLAY_LIMIT <= total,
    {
        if total <= COMPLETION_DISPLAY_LIMIT {
            0
        } else {
            let current = match selected {
                Some(i) => i,
                None => 0,
            };
            if current < COMPLETION_DISPLAY_LIMIT / 2 {
                0
            } else if current > total - COMPLETION_DISPLAY_LIMIT / 2 {
                total - COMPLETION_DISPLAY_LIMIT
            } else {
                current - COMPLETION_DISPLAY_LIMIT / 2
            }
        }
    }
}

} // verus!
