[package]
name = "robojail"
version = "0.1.0"
edition = "2021"
publish = false

[dependencies]
nix = { version = "=0.26.4", features = ["fs", "hostname", "mount", "process", "sched", "signal", "term", "uio", "user"] }
libc = "=0.2.190"
prctl = "*"
shell-words = "=1.1.1"
serde = { version = "=1.0.229", features = ["derive"] }
serde_json = "=1.0.151"
toml = "=0.8.23"
chrono = "=0.4.45"
uuid = { version = "=1.27.0", features = ["v4"] }
clap = { version = "=4.6.7", features = ["derive"] }
directories = "=5.0.1"
thiserror = "=1.0.69"
