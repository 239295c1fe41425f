[package]
name = "jabberwok"
version = "0.1.0"
edition = "2021"
publish = false

[dependencies]
sha2 = "*"
hostname = "*"
anyhow = "*"
serde = { version = "*", features = ["derive"] }
toml = "*"
tracing = "*"
tracing-subscriber = { version = "*", features = ["env-filter"] }
tracing-appender = "*"
tracing-logfmt = "*"
tempfile = "*"
fs2 = "*"
flate2 = "*"
tar = "*"
hound = "*"
chrono = "*"
libc = "*"
ctrlc = "*"
rubato = "*"
rustfft = "*"
audioadapter-buffers = "*"
