[package]
name = "sensor_central"
version = "0.1.0"
edition = "2021"
publish = false

[dependencies]
aes-gcm = "*"
rand = "*"
crossbeam-channel = "*"
reqwest = { version = "*", default-features = false }
tokio = { version = "*", features = ["macros", "rt-multi-thread"] }
serde = { version = "*", features = ["derive"] }
bincode = "1"
structopt = "*"
fern = "*"
chrono = "*"
log = "*"
gpio-cdev = "*"
nix = "*"
bme280 = "*"
linux-embedded-hal = "*"
