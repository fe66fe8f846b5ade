[package]
name = "effs"
version = "0.1.0"
edition = "2021"
publish = false

[dependencies]
fuse3 = { version = "*", features = ["tokio-runtime", "unprivileged"] }
tokio = { version = "1", features = ["rt", "sync", "signal", "macros"] }
clap = { version = "4", features = ["derive"] }
libc = "0.2"
tracing = "0.1"
tracing-subscriber = "0.3"
futures-util = "0.3"
bytes = "1"
pin-project-lite = "0.2"
