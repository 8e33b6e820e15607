//! A presence-cycling agent library: it models the scheduler that rotates a
//! set of enabled metric kinds (steps, water, sleep) through a single visible
//! rich-presence status, formats fetched metric summaries into status text,
//! and decides how fetch and publish failures are handled.

pub mod config;
pub mod models;
pub mod numfmt;
pub mod rotation;
pub mod scheduler;
pub mod status;
pub mod time;
