//! NVENC side of the driver: which preset to use, how to fill the encoder
//! configuration, and the encode session with its bitstream slot pool.

pub mod encode;
pub mod h264_config;
pub mod open;
pub mod params;
pub mod preset;
pub mod reconfigure;
pub mod register;
pub mod session;
pub mod teardown;
