[package]
name = "voxel_client"
version = "0.1.0"
edition = "2021"
publish = false

[dependencies]
zune-inflate = "*"
tokio = { version = "1", features = ["rt-multi-thread", "net", "io-util", "sync", "macros", "time"] }
