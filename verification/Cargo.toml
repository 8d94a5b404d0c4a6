[package]
name = "lore_core"
version = "0.1.0"
edition = "2021"
publish = false

[dependencies]
anyhow = "=1.0.104"
bytes = "=1.12.1"
dashmap = "=6.2.1"
fuser = "=0.18.0"
http = "=1.5.0"
libc = "=0.2.191"
parking_lot = "=0.12.5"
tokio = { version = "=1.54.1", features = ["rt-multi-thread", "fs", "io-util", "time"] }
tonic = "=0.14.9"
tower = "=0.5.3"
tracing = "=0.1.44"
uuid = { version = "=1.29.0", features = ["v7"] }
vergen = "=9.0.6"
windows-sys = { version = "=0.61.2", features = ["Win32_Foundation", "Win32_Storage_FileSystem", "Win32_Storage_ProjectedFileSystem", "Win32_System_Diagnostics_Debug", "Win32_System_IO"] }
