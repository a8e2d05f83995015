[package]
name = "spotify_access"
version = "0.1.0"
edition = "2021"
publish = false

[dependencies]
chrono = "=0.4.45"
librespot-core = "=0.7.1"
librespot-oauth = "=0.7.1"
log = "0.4"
open = "5"
rand = "=0.9.5"
rspotify = { version = "=0.16.1", default-features = false, features = ["client-ureq", "ureq-rustls-tls"] }
serde = { version = "1", features = ["derive"] }
serde_json = "1"
serde_yaml = "0.9"
tokio = { version = "1", features = ["rt-multi-thread", "sync"] }
# Holds the build script of librespot-core to the vergen it was written for.
vergen = { version = "=9.0.6", default-features = false }
