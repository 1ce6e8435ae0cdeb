[package]
name = "mimick_library"
version = "0.1.0"
edition = "2021"
publish = false

[dependencies]
ashpd = { version = "=0.13.13", default-features = false, features = ["tokio", "trash"] }
base64 = "=0.22.1"
blake3 = { version = "=1.8.7", features = ["pure"] }
chrono = "=0.4.45"
dirs = "=6.0.0"
glib = "=0.22.10"
gtk4 = { version = "=0.11.5", features = ["v4_12"] }
libadwaita = { version = "=0.9.2", features = ["v1_6"] }
libshumate = "=0.8.1"
log = "=0.4.35"
nom-exif = "=3.8.0"
serde = { version = "=1.0.229", features = ["derive"] }
serde_json = "=1.0.154"
tokio = { version = "=1.54.1", features = ["rt", "time"] }
