[package]
name = "raal"
version = "0.1.0"
edition = "2021"
publish = false

[dependencies]
regex = "=1.13.1"
rand = "=0.10.3"
chrono = "=0.4.45"
serde = { version = "=1.0.229", features = ["derive"] }
serde_json = "=1.0.151"
toml = "=1.1.7"
docopt = "=1.1.1"
shellexpand = "=3.1.2"
tokio = { version = "=1.53.2", features = ["rt", "net", "time"] }
rusoto_core = { version = "=0.48.0", default-features = false, features = ["rustls"] }
rusoto_ec2 = { version = "=0.48.0", default-features = false, features = ["rustls"] }
