//! The account service of the Codex app server.

pub mod account;
pub mod account_laws;
pub mod command;
pub mod frame;
pub mod request;
