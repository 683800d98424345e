//! Verified core of a VA-API backend driver that routes H.264 encoding to
//! NVIDIA NVENC.

pub mod bytes;
pub mod cuda;
pub mod driver;
pub mod error;
pub mod h264;
pub mod ids;
pub mod nvenc;
pub mod rates;
pub mod va;
