[package]
name = "shadowstep"
version = "0.1.0"
edition = "2021"
publish = false

[dependencies]
url = "2"
hex = "0.4"
sha2 = "0.10"
rustls = "0.21"
rustls-pemfile = "1"
actix-web = { version = "4", features = ["rustls-0_21"] }
hyper = { version = "0.14", features = ["full"] }
hyper-rustls = "0.24"
tokio = { version = "1", features = ["rt-multi-thread", "macros", "fs", "sync"] }
clap = { version = "4", features = ["derive", "env"] }
env_logger = "0.10"
log = "0.4"
num_cpus = "1"
mime_guess = "2"
serde_json = "1"
futures-util = "0.3"
bytes = "1"
http = "0.2"
thiserror = "1"
