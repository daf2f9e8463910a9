//! Reconstruction of the most recent match from a game client's diagnostic
//! log, which is read from its last line towards its first.

pub mod classify;
pub mod event;
pub mod grammar;
pub mod laws;
pub mod model;
pub mod scan;
pub mod source;
pub mod text;

pub use crate::model::{GameState, GameType, LogFileData, PlayerData, TeamData, TeamSide};
pub use crate::scan::parse_log_file_reverse;
