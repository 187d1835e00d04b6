[package]
name = "dolang-ext"
version = "0.1.0"
edition = "2021"
publish = false

[dependencies]
anstyle = "=1.0.14"
astral-tokio-tar = "=0.6.4"
async-compression = { version = "=0.4.52", features = ["tokio", "gzip", "zstd"] }
libc = "=0.2.191"
libsqlite3-sys = { version = "=0.39.1", features = ["bundled"] }
shlex = "=1.3.0"
sqlite-plugin = "=0.11.0"
time = { version = "=0.3.55", features = ["formatting", "parsing"] }
tokio = { version = "=1.54.1", features = ["rt", "io-util", "time", "fs", "macros"] }
tokio-stream = "=0.1.19"
unicode-segmentation = "=1.13.3"
unicode-width = "=0.2.3"
