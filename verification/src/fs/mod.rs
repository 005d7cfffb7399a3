//! File systems.

pub mod fat32;
