[package]
name = "esp_at_driver"
version = "0.1.0"
edition = "2021"
publish = false

[dependencies]
heapless = "=0.5.6"
moveslice = "=2.0.1"
nb = "=1.1.0"
embedded-hal = "=0.2.7"
drogue-network = "=0.1.0"
no-std-net = "=0.3.0"
log = "=0.4.34"

[dev-dependencies]
nom = { version = "=5.1.3", default-features = false }
