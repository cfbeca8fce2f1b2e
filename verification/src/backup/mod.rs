//! pgBackRest: its configuration, and what its repository holds.

pub mod config;
pub mod error;
pub mod info;
