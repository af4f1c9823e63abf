//! The decision core of a Discord-Minecraft chat bridge.

pub mod bot;
pub mod consts;
pub mod consts_laws;
pub mod decimal;
pub mod log_laws;
pub mod log_parser;
pub mod order;
pub mod playerdata;
pub mod playerdata_laws;
pub mod rcon;
pub mod relay;
pub mod stats;
pub mod stats_laws;
pub mod storage;
pub mod text;
pub mod text_laws;
pub mod text_map;
