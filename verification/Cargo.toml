[package]
name = "snimap"
version = "0.1.0"
edition = "2021"
publish = false

[dependencies]
regex = "=1.13.1"
attohttpc = { version = "=0.24.1", default-features = false, features = ["form", "tls-rustls-webpki-roots"] }
dns-lookup = "=1.0.8"
actix-web = { version = "=4.3.1", default-features = false, features = ["macros", "rustls"] }
actix-tls = { version = "=3.0.3", default-features = false, features = ["accept", "connect", "rustls"] }
awc = { version = "=3.1.1", default-features = false, features = ["rustls"] }
rustls = "=0.20.9"
webpki-roots = "=0.22.6"
rcgen = { version = "=0.10.0", features = ["x509-parser"] }
dirs-next = "=2.0.0"
toml = "=0.5.11"
serde = "=1.0.229"
serde_derive = "=1.0.229"
once_cell = "=1.21.4"
futures = "=0.3.34"
async-ctrlc = "=1.2.0"
pretty_env_logger = "=0.4.0"
log = "=0.4.34"
tokio = { version = "=1.53.2", default-features = false, features = ["net", "io-util", "time", "rt", "macros"] }
bytes = "=1.12.1"
