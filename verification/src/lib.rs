//! Usage accounting for local Codex sessions: parsing session logs, planning scans, aggregating
//! totals, and the state behind the terminal dashboard.

pub mod app;
pub mod calendar;
pub mod clock;
pub mod codex_rpc;
pub mod config;
pub mod decimal;
pub mod display_laws;
pub mod double;
pub mod json;
pub mod locale;
pub mod locale_laws;
pub mod paths;
pub mod read;
pub mod rounding;
pub mod sort;
pub mod storage;
pub mod strmap;
pub mod strset;
pub mod system;
pub mod text;
pub mod text_laws;
pub mod ui;
pub mod usage;
