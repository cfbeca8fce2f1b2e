//! What runs inside an instance container.

pub mod bootstrap;
pub mod elf;
pub mod pgbackrest;
pub mod pooler;
pub mod status;
pub mod supervise;
pub mod upgrade;
