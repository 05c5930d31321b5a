//! Peer-to-peer `LoRa` bridge: the verified core.

pub mod activity;
pub mod config;
pub mod dedup;
pub mod gossip;
pub mod headless;
pub mod keymap;
pub mod launch;
pub mod lora;
pub mod network;
pub mod number;
pub mod packet;
pub mod radio;
pub mod rate_limit;
pub mod router;
pub mod runs;
pub mod setup;
pub mod text;
pub mod tui;
