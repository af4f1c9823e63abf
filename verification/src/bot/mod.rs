//! The Discord side of the bridge.

pub mod bridge_laws;
pub mod commands;
pub mod embed;
pub mod handler;
pub mod laws;
pub mod mentions;
pub mod types;
pub mod verification;
