//! Core of a real-time terminal log viewer: the bounded line store, the
//! per-tab filtered views, the ANSI escape parser with its persistent style
//! state, the search state machine and the event dispatcher.

pub mod ansi;
pub mod style;
pub mod lines;
pub mod text;
pub mod buffer;
pub mod search;
pub mod dispatcher;
