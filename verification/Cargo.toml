[package]
name = "rust_dsp"
version = "0.1.0"
edition = "2021"
publish = false

[dependencies]
libm = "=0.2.16"
cpal = "=0.15.3"
midir = "=0.10.4"
cortex-m = "=0.7.10"
cortex-m-rt = "=0.7.7"
daisy = { version = "=0.11.0", features = ["seed_1_2"] }
panic-halt = "=1.0.0"
