[package]
name = "pio-usb"
version = "0.1.0"
edition = "2021"
publish = false

[dependencies]
cortex-m = "=0.7.10"
embassy-rp = { version = "=0.10.0", features = ["rp2040", "unstable-pac", "critical-section-impl"] }
embassy-sync = "=0.8.0"
embassy-usb = "=0.6.0"
pio = "=0.3.0"
