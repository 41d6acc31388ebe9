[package]
name = "qr_server"
version = "0.1.0"
edition = "2021"
publish = false

[dependencies]
actix-web = { version = "4", default-features = false, features = ["macros"] }
actix-ws = "0.3"
anyhow = "1"
axum = "0.8"
barcoders = { version = "=2.0.0", features = ["image"] }
base64 = "=0.22.1"
chromiumoxide = "=0.9.1"
futures = "0.3"
futures-util = "0.3"
image = { version = "=0.25.10", default-features = false, features = ["png"] }
qrcode = "=0.14.1"
reqwest = { version = "=0.13.5", default-features = false }
rusqlite = { version = "=0.41.1", features = ["bundled"] }
serde = { version = "1", features = ["derive"] }
serde_json = "=1.0.154"
tera = { version = "=2.4.0", features = ["preserve_order"] }
thiserror = "2"
tokio = { version = "1", features = ["full"] }
tokio-tungstenite = "0.26"
toml = "0.9"
tower-http = { version = "=0.6.11", features = ["cors"] }
tracing = "0.1"
tracing-appender = "0.2"
tracing-subscriber = { version = "0.3", features = ["time", "local-time"] }
windows-service = "=0.8.1"
windows-sys = { version = "=0.61.2", features = ["Win32_Foundation", "Win32_Security", "Win32_System_Pipes", "Win32_System_RemoteDesktop", "Win32_System_Threading"] }
