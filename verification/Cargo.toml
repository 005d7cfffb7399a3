[package]
name = "blight_os"
version = "0.1.0"
edition = "2021"
publish = false

[dependencies]
x86_64 = { version = "0.14", default-features = false, features = ["instructions"] }
bootloader = { version = "0.9", features = ["map_physical_memory"] }
volatile = "0.2"
spin = "0.5"
lazy_static = { version = "1", features = ["spin_no_std"] }
pc-keyboard = "0.5"
futures-util = { version = "0.3", default-features = false, features = ["alloc"] }
