[package]
name = "sidgate"
version = "0.1.0"
edition = "2021"
publish = false

[dependencies]
anyhow = "=1.0.104"
async-trait = "=0.1.92"
axum = { version = "=0.8.9", features = ["ws"] }
axum-server = { version = "=0.8.0", features = ["tls-rustls-no-provider"] }
bytes = "=1.12.1"
clap = { version = "=4.6.7", features = ["derive"] }
data-encoding = "=2.11.1"
ed25519-dalek = "=2.2.0"
futures-util = "=0.3.34"
p256 = { version = "=0.13.2", features = ["ecdsa"] }
parking_lot = "=0.12.5"
rand = "=0.9.5"
rcgen = "=0.14.10"
rtc = "=0.21.1"
rustls = { version = "=0.23.46", default-features = false, features = ["ring", "std"] }
serde = { version = "=1.0.229", features = ["derive"] }
serde_json = "=1.0.154"
sha2 = "=0.10.9"
subtle = "=2.6.1"
thiserror = "=2.0.21"
time = { version = "=0.3.55", features = ["formatting"] }
tokio = { version = "=1.54.1", features = ["full"] }
toml = "=1.1.8"
tracing = "=0.1.44"
tracing-subscriber = { version = "=0.3.23", features = ["env-filter"] }
webrtc = "=0.21.1"
windows = { version = "*", features = ["Win32_Foundation", "Win32_Graphics_Direct3D", "Win32_Graphics_Direct3D11", "Win32_Graphics_Dxgi", "Win32_Graphics_Dxgi_Common", "Win32_Media_MediaFoundation", "Win32_Security", "Win32_System_Com", "Win32_System_Com_StructuredStorage", "Win32_System_Environment", "Win32_System_Ole", "Win32_System_Power", "Win32_System_RemoteDesktop", "Win32_System_Services", "Win32_System_Shutdown", "Win32_System_StationsAndDesktops", "Win32_System_Threading", "Win32_System_Variant", "Win32_UI_Input_KeyboardAndMouse"] }
