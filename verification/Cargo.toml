[package]
name = "pico-fi"
version = "0.1.0"
edition = "2021"
publish = false

[dependencies]
heapless = "=0.8.0"
portable-atomic = "=1.15.0"
embassy-sync = "=0.8.0"
embassy-time = { version = "=0.5.1", features = ["std"] }
embassy-futures = "=0.1.2"
embassy-executor = { version = "=0.10.0", features = ["platform-std", "executor-thread"] }
embassy-net = { version = "=0.9.1", features = ["tcp", "dhcpv4", "medium-ethernet"] }
embassy-net-wiznet = "=0.3.0"
embassy-rp = { version = "=0.10.0", features = ["rp2040", "time-driver", "critical-section-impl", "unstable-pac"] }
embassy-usb = "=0.6.0"
embedded-hal-bus = { version = "=0.3.0", features = ["async"] }
embedded-io-async = "=0.7.0"
static_cell = "=2.1.1"
cortex-m-rt = "=0.7.7"
panic-halt = "=1.0.0"
pio = "=0.3.0"
rp-pac = "=7.0.0"
serde = { version = "=1.0.229", default-features = false, features = ["alloc", "derive"] }
serde_json = { version = "=1.0.154", default-features = false, features = ["alloc"] }
