//! Local usage: session logs, scan cache, aggregation and the labels shown for them.

pub mod cache;
pub mod counting;
pub mod format;
pub mod labels;
pub mod laws;
pub mod line_laws;
pub mod models;
pub mod order;
pub mod refresh;
pub mod refresh_laws;
pub mod region;
pub mod scan;
pub mod session;
pub mod snapshot;
pub mod summary;
pub mod summary_laws;
