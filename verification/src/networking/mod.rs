//! Link-layer networking.

pub mod ethernet;
