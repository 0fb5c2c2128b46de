//! Verified core of a network configuration switcher.
//!
//! The library holds the logic that decides which saved network
//! configuration matches the network a machine is currently on, when a
//! configuration should be applied automatically, and how the set of
//! configurations is stored and carried to disk.  All functions here are
//! verified; the operating-system probes and actuators that feed and obey
//! this logic live outside the library and exchange plain values with it.

pub mod codec;
pub mod config;
pub mod controller;
pub mod network;
pub mod text;
