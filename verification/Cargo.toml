[package]
name = "droptail"
version = "0.1.0"
edition = "2021"
publish = false

[dependencies]
flate2 = "1"
zstd = "*"
tar = "*"
zip = { version = "*", default-features = false, features = ["deflate"] }
walkdir = "2"
os_pipe = "1"
reqwest = { version = "*", default-features = false, features = ["blocking"] }
serde = { version = "1", features = ["derive"] }
serde_json = "1"
thiserror = "*"
relm4 = { version = "*", features = ["libadwaita"] }
