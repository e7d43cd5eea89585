[package]
name = "codeck"
version = "0.1.0"
edition = "2021"
publish = false

[dependencies]
anyhow = "1"
arboard = "3"
clap = { version = "4", features = ["derive"] }
crossterm = "*"
libc = "0.2"
png = "*"
pulldown-cmark = { version = "*", default-features = false }
ratatui = "*"
serde = { version = "1", features = ["derive"] }
serde_json = "1"
tungstenite = { version = "*", default-features = false, features = ["handshake"] }
unicode-segmentation = "1"
unicode-width = "*"
xterm-query = "*"
