[package]
name = "systime"
version = "0.1.0"
edition = "2021"
publish = false

[dependencies]
async-io = "2"
futures-lite = "2"
libc = "0.2"
nix = { version = "0.30", features = ["event", "fs", "time"] }
parking_lot = "0.12"
pin-project = "1"
tokio = { version = "1", features = ["net", "rt"] }
windows = { version = "0.61", features = ["Wdk_Foundation", "Win32_Foundation", "Win32_Security", "Win32_System_IO", "Win32_System_Threading"] }
