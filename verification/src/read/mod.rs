//! The session history: what its files say and how it is browsed.

pub mod browse_laws;
pub mod browser;
pub mod catalog;
pub mod detail;
pub mod laws;
pub mod session;
pub mod view;
