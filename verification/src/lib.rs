//! Decision core of a real-time renderer that drives an explicit GPU API.
//!
//! The crate holds no GPU handle and makes no GPU call. Every function maps
//! plain values to plain values: the caller performs the commands that the
//! core hands out and reports what the device answered.

pub mod app;
pub mod command;
pub mod drawable;
pub mod instance;
pub mod memory;
pub mod mesh;
pub mod physical_device;
pub mod push_constants;
pub mod recording;
pub mod surface;
pub mod swapchain;
pub mod transfer;
pub mod uniform;
