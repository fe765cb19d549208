//! The state of the dashboard: what is shown, how input changes it, and what is kept of it.

pub mod input;
pub mod input_laws;
pub mod persist;
pub mod state;
pub mod worker;
pub mod worker_laws;
