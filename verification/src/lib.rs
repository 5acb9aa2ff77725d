//! Telemetry framing, replay protection, rules and gateway models for the
//! ESP32 / ESP-NOW telemetry pipeline.

pub mod codec;
pub mod command_laws;
pub mod config;
pub mod control;
pub mod device_gateway;
pub mod device_laws;
pub mod firmware_config;
pub mod frame;
pub mod gateway;
pub mod gateway_inv;
pub mod gateway_laws;
pub mod gateway_sim;
pub mod gwlink;
pub mod hw_backend;
pub mod hw_laws;
pub mod inbox;
pub mod live;
pub mod mac;
pub mod pipeline;
pub mod replay;
pub mod rules;
pub mod sim_node;
pub mod sim_tools;
pub mod text;
pub mod uart;
