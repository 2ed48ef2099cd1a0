[package]
name = "flashkraft"
version = "0.1.0"
edition = "2021"
publish = false

[dependencies]
sha2 = "0.10"
nusb = "*"
nix = { version = "*", features = ["user", "mount", "ioctl", "fs"] }
crossterm = "*"
ratatui = "*"
tokio = { version = "1", features = ["rt-multi-thread", "macros", "sync", "time"] }
anyhow = "1"
futures = "0.3"
sysinfo = "*"
