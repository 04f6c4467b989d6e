//! Core of a real-time game-companion overlay: an in-process event bus that
//! decouples input producers from UI-bound state machines, together with the
//! timing and estimation logic that consumes those events — a tap-tempo (BPM)
//! estimator, elapsed-time timers, a phase-cycling indicator, and a tri-state
//! toggle grid with bulk presets and time-based auto-expiry.
//!
//! Rendering, window chrome and the platform input hook are external
//! collaborators; they live outside this crate and talk to it through plain
//! values (key codes, millisecond timestamps, formatted strings).

pub mod app;
pub mod bpm;
pub mod console_view;
pub mod console_window;
pub mod event_bus;
pub mod events;
pub mod grid;
pub mod main_view;
pub mod main_window;
pub mod settings;
pub mod time_format;
pub mod timers;

pub use events::Event;
