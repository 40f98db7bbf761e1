[package]
name = "hash_color_lib"
version = "0.1.0"
edition = "2021"
publish = false

[dependencies]
clap = { version = "4", features = ["derive", "env"] }
is-terminal = "0.4"
terminfo = "*"
thiserror = "*"
tracing = "0.1"
