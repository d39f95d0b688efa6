[package]
name = "txt2epub"
version = "0.1.0"
edition = "2021"
publish = false

[dependencies]
anyhow = "=1.0.104"
clap = { version = "=4.6.7", features = ["derive"] }
epub-builder = "=0.8.3"
imageinfo = "=0.7.27"
indoc = "=2.0.7"
lazy-regex = "=3.6.2"
rand = "=0.10.3"
regex = "=1.13.1"
reqwest = { version = "=0.13.5", default-features = false, features = ["blocking", "query"] }
uuid = { version = "=1.27.0", features = ["v4"] }

[dev-dependencies]
quick-xml = "=0.42.0"
