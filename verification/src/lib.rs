//! Synchronisation core of a leaderboard panel: which request is owed, how an
//! expired session is recovered once, and which rows are shown.

pub mod challenge;
pub mod challenge_info;
pub mod fetch;
pub mod json;
pub mod params;
pub mod pipeline;
pub mod score;
pub mod scoreboard_app;
pub mod submission;
pub mod sync;
pub mod text;
pub mod wire;
