//! Verified core of a Semtech UDP / Concentratord to MQTT forwarder.
pub mod backend;
pub mod commands;
pub mod config;
pub mod gw;
pub mod metadata;
pub mod mqtt;
pub mod text;
