[package]
name = "tsc"
version = "0.1.0"
edition = "2021"
publish = false

[dependencies]
blake3 = "=1.8.7"
ed25519-dalek = { version = "=2.2.0", features = ["rand_core", "zeroize"] }
chacha20poly1305 = "=0.10.1"
aes-gcm = "=0.10.3"
argon2 = "=0.5.3"
hkdf = "=0.12.4"
hmac = "=0.12.1"
sha2 = "=0.10.9"
zeroize = { version = "=1.9.1", features = ["derive"] }
rand = "=0.8.8"
hex = "=0.4.3"
bip39 = { version = "=2.2.2", features = ["rand"] }
serde = { version = "=1.0.229", features = ["derive"] }
serde_json = "=1.0.154"
bincode = "=1.3.3"
thiserror = "=1.0.69"
dirs = "=5.0.1"
tokio = { version = "=1.54.1", features = ["full"] }
quinn = "=0.10.2"
rustls = { version = "=0.21.12", features = ["dangerous_configuration"] }
rcgen = "=0.12.1"
libp2p = { version = "=0.53.2", features = ["kad", "mdns", "tcp", "noise", "yamux", "tokio", "macros"] }
nix = { version = "=0.27.1", features = ["socket", "process", "user"] }
