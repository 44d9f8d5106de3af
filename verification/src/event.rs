//! The events consumed by the model's loop. All external stimuli — the
//! heartbeat, key-driven actions, and reader progress — arrive as values of
//! this one type, totally ordered by arrival.

use vstd::prelude::*;

verus! {

pub enum Event {
    /// Periodic poll of worker progress.
    HeartBeat,
    /// Accept the current selection; carries an optional accept-key label.
    Accept(Option<String>),
    /// Abandon the run.
    Abort,
    /// Backspace; aborts when the filter query is already empty.
    DeleteCharEOF,
    /// Flip the preview pane's visibility.
    TogglePreview,
    /// Cycle the matcher mode (fuzzy to regex and back).
    RotateMode,
    /// Append a character to the filter query.
    AddChar(char),
    /// Drop the last character of the filter query.
    DeleteChar,
    /// Append a character to the command query.
    AddCharCmd(char),
    /// Drop the last character of the command query.
    DeleteCharCmd,
    /// Move the match cursor one row up (towards better matches).
    CursorUp,
    /// Move the match cursor one row down.
    CursorDown,
    /// Toggle multi-selection of the item under the cursor.
    ToggleSelect,
    /// Lines the reader worker has produced since the last delivery.
    ReaderPush(Vec<String>),
    /// The reader worker has consumed its whole input.
    ReaderDone,
}

/// What the model returns for one absorbed event.
pub enum StepOutcome {
    /// Keep looping.
    Continue,
    /// The user accepted: the run is over, with this output.
    Accepted(crate::output::SkimOutput),
    /// The user aborted: the run is over, with nothing.
    Aborted,
}

} // verus!
