//! Verified logic of the Pico-Fi Ethernet bridge.

pub mod bridge;
pub mod bytes;
pub mod config;
pub mod containers;
pub mod host;
pub mod net;
pub mod protocol;
pub mod scan;
pub mod settings;
pub mod shell;
pub mod startup;
pub mod storage;
pub mod text;
