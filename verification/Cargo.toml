[package]
name = "sn_node"
version = "0.1.0"
edition = "2021"
publish = false

[dependencies]
alloy = { version = "=0.5.4", default-features = false, features = ["std"] }
libp2p = { version = "=0.54.1", default-features = false, features = ["kad", "ed25519"] }
rand = "=0.8.8"
url = "=2.5.8"
tokio = { version = "=1.54.1", features = ["macros", "rt", "sync", "time"] }
hex = "=0.4.3"
indicatif = "=0.18.6"
dirs-next = "=2.0.0"
rpassword = "=7.5.4"
tracing = "=0.1.44"
