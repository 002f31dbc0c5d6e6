//! Verified core of a segmented download manager: segment planning, file naming,
//! media command-line construction, scheduling, version checks and task state.

pub mod text;
pub mod numbers;
pub mod paths;
pub mod models;
pub mod engine;
pub mod naming;
pub mod messages;
pub mod urls;
pub mod media;
pub mod schedule;
pub mod versions;
pub mod selection;
pub mod tasks;
pub mod transfer;
pub mod settings;
pub mod messaging;
pub mod listing;
pub mod probing;
pub mod planning;
pub mod formats;
pub mod queue;
