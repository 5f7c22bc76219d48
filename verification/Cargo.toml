[package]
name = "rsplayer"
version = "0.1.0"
edition = "2021"
publish = false

[dependencies]
rand = "=0.7.3"
sled = "=0.34.7"
serde = { version = "=1.0.229", features = ["derive"] }
serde_json = "=1.0.154"
mpd = "=0.1.0"
cpal = "=0.18.2"
symphonia = "=0.5.5"
anyhow = "=1.0.104"
log = "=0.4.35"
