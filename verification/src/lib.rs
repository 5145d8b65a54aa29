//! Greylisting policy registry: triplets, their listing state machine, the
//! textual command protocol that drives it and the values it persists.

pub mod app;
pub mod command;
pub mod config;
pub mod decimal;
pub mod dispatch;
pub mod entry;
pub mod persist;
pub mod protocol;
pub mod registry;
pub mod report;
pub mod status;
pub mod text;
pub mod time;
pub mod triplet;

pub use app::App;
pub use entry::{GreylistEntry, StoredStatistics};
pub use persist::load_triplet_states;
