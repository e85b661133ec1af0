[package]
name = "muzzman_lib"
version = "0.1.0"
edition = "2021"
publish = false

[dependencies]
bytes-kman = "*"
libloading = "*"
log = "*"
once_cell = "*"
serde = { version = "*", features = ["derive"] }
