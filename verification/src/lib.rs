//! The verified core of pgpod, an operator for PostgreSQL on rootless podman.

pub mod agent;
pub mod backup;
pub mod cli;
pub mod container;
pub mod control;
pub mod path;
pub mod text;
pub mod time;
