//! Verified core of a remote Docker container manager driven over SSH.

pub mod text;
pub mod models;
pub mod config;
pub mod ssh_util;
pub mod ssh_docker;
pub mod shell_words;
pub mod session;
pub mod exec;
pub mod ui;
