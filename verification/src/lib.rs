//! Verified core logic of the light-show mesh firmware and its show server.

pub mod bounded;
pub mod checksum;
pub mod color;
pub mod events;
pub mod instructions;
pub mod led_executor;
pub mod mesh_protocol;
pub mod mesh_state;
pub mod node;
pub mod ntp;
pub mod ota;
pub mod projector;
pub mod s2_espnow;
pub mod s2_instructions;
pub mod s2_led;
pub mod s2_node;
pub mod s2_ota;
pub mod s2_routing;
pub mod s2_time_sync;
pub mod scan;
pub mod server;
pub mod show;
pub mod show_client;
pub mod tasks;
pub mod utils;
pub mod text;
pub mod version;
pub mod wifi;
