[package]
name = "mdict_index"
version = "0.1.0"
edition = "2021"
publish = false

[dependencies]
patricia_tree = "=0.10.2"
encoding_rs = "=0.8.42"
miniz_oxide = "=0.9.1"
rust-lzo = "=0.6.2"
ripemd = "=0.1.3"
bytes = "=1.12.1"
log = "=0.4.34"
async-trait = "=0.1.92"
tokio = { version = "=1.54.1", features = ["full"] }
sqlx = { version = "=0.8.6", default-features = false, features = ["sqlite", "runtime-tokio"] }
regex = "=1.13.1"
mime = "=0.3.17"
mime_guess = "=2.0.5"
urlencoding = "=2.1.3"
pretty_env_logger = "=0.5.0"
warp = { version = "=0.3.7", default-features = false }

[dev-dependencies]
adler32 = "=1.2.0"
