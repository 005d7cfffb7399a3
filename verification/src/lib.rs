//! Hardware discovery and network-device driver core of a small kernel.
//!
//! The crate holds the decision logic only: it decodes PCI configuration
//! registers, walks the bus topology, sequences the RTL8139 controller and
//! encodes link-layer frames. Port and memory-mapped I/O are left to the
//! caller, which hands register values in and carries register writes out.

pub mod networking;
pub mod pci;
pub mod vga_buffer;
pub mod fs;
