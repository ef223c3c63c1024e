[package]
name = "classmesh"
version = "0.1.0"
edition = "2021"
publish = false

[dependencies]
# The contracts on functions of these crates are stated of these versions.
p256 = { version = "=0.13.2", features = ["ecdsa"] }
prost = "=0.14.4"
quinn = { version = "=0.11.12", default-features = false, features = ["runtime-tokio", "rustls-ring"] }
rcgen = { version = "=0.14.10", default-features = false, features = ["crypto", "pem", "ring", "x509-parser"] }
rustls = { version = "=0.23.46", default-features = false, features = ["logging", "ring", "std", "tls12"] }
serde = { version = "=1.0.229", features = ["derive"] }
serde_json = "=1.0.154"
sframe = "=2.1.0"
sha2 = "=0.10.9"
# The times of a certificate in rcgen, made from those of the standard library.
time = "=0.3.55"
tokio = { version = "=1.54.1", features = ["net", "rt", "time", "macros"] }
windows-sys = { version = "=0.61.2", features = ["Win32_Foundation", "Win32_Security_Cryptography"] }
zeroize = { version = "=1.9.1", features = ["zeroize_derive"] }
