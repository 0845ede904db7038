//! The rules of the Zali messenger server.

pub mod access;
pub mod assets;
pub mod auth;
pub mod config;
pub mod delivery;
pub mod headers;
pub mod ids;
pub mod json;
pub mod messages;
pub mod order;
pub mod records;
pub mod refusal;
pub mod roles;
pub mod seeds;
pub mod servers;
pub mod text;
pub mod throttle;
pub mod uploads;
pub mod voice;
