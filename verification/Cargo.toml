[package]
name = "ferris_unzip"
version = "0.1.0"
edition = "2021"
publish = false

[dependencies]
bzip2 = "*"
clap = "4"
flate2 = "1"
sevenz-rust = { version = "*", features = ["aes256", "compress"] }
tar = "0.4"
unrar = "*"
xz2 = "0.1"
zip = { version = "*", default-features = false, features = ["deflate"] }
