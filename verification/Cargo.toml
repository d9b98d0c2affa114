[package]
name = "grapevine"
version = "0.1.0"
edition = "2021"
publish = false

[dependencies]
petname = "=1.1.3"
message-io = "0.11"
log = "=0.4.34"
hhmmss = "=0.1.0"
clap = "=4.6.7"
thiserror = "=1.0.69"

[dev-dependencies]
bincode = "=1.3.3"
serde = "=1.0.229"
