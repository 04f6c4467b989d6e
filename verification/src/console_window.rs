//! The console window: owns the console view's state.
//!
//! The real window chrome — title, size, widget tree — belongs to the
//! windowing collaborator; the core keeps only the state the console's
//! logic reads and writes.

use vstd::prelude::*;

use crate::console_view::ConsoleView;

verus! {

/// The settings console, one view inside its own window.
pub struct ConsoleWindow {
    /// The key-capture controller the window's buttons arm.
    pub view: ConsoleView,
}

impl ConsoleWindow {
    /// A fresh console: its capture controller starts disarmed.
    pub fn new() -> (w: ConsoleWindow)
        ensures
            !w.view.is_capturing(),
    {
        ConsoleWindow { view: ConsoleView::new() }
    }
}

} // verus!
