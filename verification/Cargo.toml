[package]
name = "hello_espcx"
version = "0.1.0"
edition = "2021"
publish = false

[dependencies]
postcard = "=1.1.3"
serde = { version = "=1.0.229", default-features = false, features = ["derive"] }
heapless = "=0.9.3"
trouble-host = "=0.8.0"
embassy-time = "=0.5.1"
embassy-futures = "=0.1.2"
thiserror = "=2.0.21"
static_cell = "=2.1.1"
