//! Persistence core of a build watchdog: which builds were seen on which
//! release branches, and which assets each build carries.

pub mod model;
pub mod classify;
pub mod plan;
pub mod store;
pub mod laws;
