//! Core library of a software KVM switch: one machine (the server) captures
//! keyboard and pointer input and, depending on where the virtual cursor lies
//! in a multi-machine screen topology, passes it to its own operating system
//! or forwards it over the network to a client machine.
//!
//! Pointer coordinates are carried in thousandths of a pixel so that
//! sub-pixel positions reported by the platform hook survive the trip
//! through the library unchanged.

use vstd::prelude::*;

pub mod channel;
pub mod client;
pub mod codec;
pub mod config;
pub mod connected;
pub mod discovery;
pub mod event;
pub mod net;
pub mod server;
pub mod topology;

verus! {

/// Number of coordinate units per pixel: positions are measured in
/// thousandths of a pixel throughout the library.
pub const COORD_SCALE: i64 = 1000;

} // verus!
