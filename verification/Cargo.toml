[package]
name = "jdpub"
version = "0.1.0"
edition = "2021"
publish = false

[dependencies]
anyhow = "=1.0.104"
build_html = "=2.8.0"
charabia = { version = "=0.10.0", default-features = false }
clap = { version = "=4.6.7", features = ["derive"] }
csv = "=1.4.0"
durf_parser = "=0.2.3"
epub-builder = "=0.8.3"
epub-parser = "=0.3.4"
jmdict-fast = "=0.1.7"
serde = { version = "=1.0.229", features = ["derive"] }
toml = "=0.9.8"
uuid = { version = "=1.27.0", features = ["v4"] }
wana_kana = "=5.0.0"

[dev-dependencies]
fst = "=0.4.7"
postcard = { version = "=1.1.3", features = ["alloc"] }
