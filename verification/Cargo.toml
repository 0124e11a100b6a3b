[package]
name = "taiga"
version = "0.1.0"
edition = "2021"
publish = false

[dependencies]
comfy-table = "7"
crossbeam = "0.8"
crossbeam-deque = "0.8"
futures = "0.3"
hdrhistogram = "7"
libc = "0.2"
mio = { version = "1", features = ["os-poll", "net"] }
num_cpus = "1"
parking_lot = "0.12"
polling = "3"
slab = "0.4"
socket2 = "0.5"
tokio = { version = "1", features = ["rt-multi-thread", "net", "io-util", "time"] }
