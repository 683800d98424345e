//! The entries of the driver's function table, as decisions over the pools.
//!
//! An entry takes plain values: arrays and strings instead of pointers, and a
//! flag for each output pointer that must not be null. It gives back what the
//! caller writes through those pointers.

pub mod buffer;
pub mod config;
pub mod context;
pub mod display_attr;
pub mod end_picture;
pub mod export;
pub mod image;
pub mod lifecycle;
pub mod picture;
pub mod state;
pub mod surface;
pub mod sync;
