//! Theorems about the library as a whole: what its results mean in terms of
//! what goes in.

pub mod admins;
pub mod device;
pub mod host;
pub mod isolation;
pub mod memory;
pub mod messages;
pub mod network;
pub mod packages;
pub mod policies;
pub mod posture;
pub mod power;
pub mod processes;
pub mod scans;
pub mod streams;
pub mod text;
