[package]
name = "meli"
version = "0.1.0"
edition = "2021"
publish = false

[dependencies]
melib = { version = "*", default-features = false }
uuid = { version = "1", features = ["v4"] }
smallvec = "1"
crossterm = "0.29"
ratatui = "*"
serde = { version = "1", features = ["derive"] }
nix = { version = "*", features = ["poll", "fs", "term", "process", "signal"] }
crossbeam = "0.8"
libc = "0.2"
log = "0.4"
url = "2"
ammonia = "4"
html2text = "*"
xdg = "*"

[dev-dependencies]
tempfile = "3"
