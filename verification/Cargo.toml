[package]
name = "xfs_fuse"
version = "0.1.0"
edition = "2021"
publish = false

[dependencies]
bincode = "2.0"
byteorder = "1.5"
crc = "3.2"
uuid = "1"
fuser = { version = "0.14", default-features = false }
libc = "0.2"
nix = { version = "0.29", features = ["process", "user", "ioctl"] }
clap = { version = "4", features = ["derive", "cargo"] }
cfg-if = "1"
tracing = "0.1"
tracing-subscriber = { version = "0.3", features = ["env-filter"] }
