//! Drivers for devices found on the bus.

pub mod rtl8139;
