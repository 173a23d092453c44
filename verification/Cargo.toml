[package]
name = "sem86_core"
version = "0.1.0"
edition = "2021"
publish = false

[dependencies]
arrayvec = "=0.7.8"
smoltcp = "=0.12.0"
sha2 = "=0.10.9"
hex = "=0.4.3"
itertools = "=0.15.0"
jiff = "=0.2.39"
mio = { version = "=1.2.4", features = ["os-poll", "net"] }
nix = { version = "=0.31.3", features = ["mman"] }
fxhash = "=0.2.1"
liblisa = { version = "=0.3.0", default-features = false }
slab = "=0.4.12"
crossbeam-channel = "=0.5.17"
log = "=0.4.35"
serde = { version = "=1.0.229", features = ["derive"] }
serde_json = "=1.0.154"
