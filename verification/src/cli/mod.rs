//! What the command line shows.

pub mod doctor;
pub mod output;
pub mod report;
