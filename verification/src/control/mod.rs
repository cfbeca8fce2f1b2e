//! What runs on the host: clusters and poolers, described, compared and
//! brought about.

pub mod apply;
pub mod backup;
pub mod containers;
pub mod daemon;
pub mod error;
pub mod model;
pub mod names;
pub mod password;
pub mod pooler;
pub mod recreate;
pub mod restore;
pub mod resume;
pub mod secrets;
pub mod spec;
pub mod status;
pub mod upgrade;
