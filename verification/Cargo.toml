[package]
name = "melminter"
version = "0.1.0"
edition = "2021"

[dependencies]
anyhow = "1"
bytes = "1"
dashmap = "4"
env_logger = { version = "0.10", default-features = false }
fastrand = "2"
log = "0.4"
melpow = "=0.1.2"
melstf = "=0.12.3"
melstructs = "=0.3.3"
melvm = "=0.1.1"
melwallet = "=0.1.2"
num_cpus = "1"
parking_lot = "0.11"
prodash = { version = "21", features = ["render-line", "render-line-crossterm", "render-line-autoconfigure"] }
smol = "1"
smolscale = "0.4"
stdcode = "=0.1.14"
structopt = { version = "0.3", default-features = false }
tmelcrypt = "=0.2.7"
