[package]
name = "glovebox"
version = "0.1.0"
edition = "2021"
publish = false

[dependencies]
actix = "0.13.5"
actix-web = "4.18.1"
anyhow = "1.0.104"
byte-unit = "5.2.6"
bytes = "1.12.1"
log = "0.4.34"
lru = "0.19.0"
mime = "0.3.17"
once_cell = "1.21.4"
quick-xml = { version = "0.42.0", features = ["serialize"] }
reqwest = { version = "0.13.5", default-features = false, features = ["blocking"] }
semver = "1.0.28"
serde = { version = "1.0.229", features = ["derive"] }
simplelog = "0.12.2"
structopt = "0.3.26"
thiserror = "2.0.21"
zip = { version = "9.1.0", default-features = false, features = ["deflate"] }
