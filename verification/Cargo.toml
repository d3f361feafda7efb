[package]
name = "aynime_issen"
version = "0.1.0"
edition = "2021"
publish = false

[dependencies]
anyhow = "1"
env_logger = { version = "0.11", default-features = false }
image = { version = "0.25", default-features = false, features = ["png", "webp"] }
log = "0.4"
serde = { version = "1", features = ["derive"] }
serde_json = "1"
windows = { version = "0.61", features = ["Win32_Foundation", "Win32_Graphics_Direct3D", "Win32_Graphics_Direct3D11", "Win32_Graphics_Dxgi", "Win32_Graphics_Dxgi_Common", "Win32_Graphics_Gdi", "Win32_System_DataExchange", "Win32_System_Memory", "Win32_System_Ole", "Win32_UI_Input_KeyboardAndMouse", "Win32_UI_WindowsAndMessaging"] }
zip = { version = "2", default-features = false, features = ["deflate"] }
