[package]
name = "aptmirs"
version = "0.1.0"
edition = "2021"
publish = false

[dependencies]
hex = "0.4"
md5 = "0.7"
sha1 = "0.10"
sha2 = "0.10"
flate2 = "1"
bzip2 = "0.4"
xz2 = "0.1"
pathdiff = "0.2"
reqwest = { version = "0.12", default-features = false }
tokio = { version = "1", features = ["full"] }
clap = { version = "4", features = ["derive", "env"] }
async-channel = "2"
chrono = "0.4"
console = "0.15"
indicatif = "0.17"
walkdir = "2"
pgp = "*"
