//! Session engine of an SSH deception endpoint: admission control, an
//! in-memory filesystem and shell, a content-addressed store and a
//! structured per-session capture log.

pub mod capture;
pub mod commands;
pub mod config;
pub mod controller;
pub mod env;
pub mod filesystem;
pub mod ipaddr;
pub mod rate_limit;
pub mod session;
pub mod shell;
pub mod storage;
pub mod text;
pub mod validation;
