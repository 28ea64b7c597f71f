//! Ranking core of a desktop application launcher: a tick-driven fuzzy match
//! engine over a corpus of launchable entries, a ranking combiner that blends
//! match order with usage frequency, a selection cursor, and the per-tick
//! session driver with its commit and cancel actions.

pub mod application;
pub mod combiner;
pub mod descriptor;
pub mod desktop;
pub mod engine;
mod history;
mod rank;
mod selection;
pub mod searcher;
pub mod session;
mod text;

pub use history::History;
pub use rank::Scored;
pub use selection::SelectionState;
