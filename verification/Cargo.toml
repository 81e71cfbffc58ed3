[package]
name = "imap_proto"
version = "0.1.0"
edition = "2021"
publish = false

[dependencies]
nom = "7"
bytes = "1"
tokio = { version = "1", features = ["net", "io-util", "rt"] }
tokio-util = { version = "0.7", features = ["codec"] }
futures-util = { version = "0.3", features = ["sink"] }
futures-sink = "0.3"
pin-project = "1"
tokio-rustls = "0.24"
webpki-roots = "0.25"
