[package]
name = "crate_runtime"
version = "0.1.0"
edition = "2021"
publish = false

[dependencies]
anyhow = "1"
caps = "0.5"
clap = { version = "4", features = ["derive"] }
dirs = "5"
flate2 = "1"
futures = "0.3"
hex = "0.4"
libc = "0.2"
nix = { version = "0.29", features = ["fs", "hostname", "mount", "process", "sched", "signal", "user"] }
oci-spec = { version = "0.7", default-features = false, features = ["runtime"] }
reqwest = { version = "0.12", default-features = false, features = ["json", "rustls-tls", "stream"] }
rtnetlink = "0.14"
serde = { version = "1", features = ["derive"] }
serde_json = "1"
sha2 = "0.10"
tar = "0.4"
thiserror = "1"
tokio = { version = "1", features = ["fs", "io-util", "macros", "rt-multi-thread"] }
toml = "0.8"
tracing = "0.1"
tracing-subscriber = { version = "0.3", features = ["env-filter"] }
uuid = { version = "1", features = ["v4"] }

[dev-dependencies]
tempfile = "3"
