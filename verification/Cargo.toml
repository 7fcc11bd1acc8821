[package]
name = "lithophane_creator"
version = "0.1.0"
edition = "2021"
publish = false

[dependencies]
clap = { version = "4", features = ["derive"] }
image = "0.24"
meval = "0.2"
pk_stl = "*"
thiserror = "1"
