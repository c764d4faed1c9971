[package]
name = "flyline"
version = "0.1.0"
edition = "2021"
publish = false

[dependencies]
unicode-segmentation = "=1.13.3"
unicode-width = "=0.2.3"
shlex = "=1.3.0"
parse-style = "=0.4.1"
lscolors = { version = "*", default-features = false }
chrono = { version = "0.4", default-features = false, features = ["clock"] }

[dev-dependencies]
ratatui-core = "=0.1.2"
