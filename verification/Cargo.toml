[package]
name = "banshee"
version = "0.1.0"
edition = "2021"
publish = false

[dependencies]
notify = "=8.2.1"
serde = { version = "=1.0.229", features = ["derive"] }
toml = "=1.1.8"
windows = { version = "*", features = ["Win32_Foundation", "Win32_Graphics_Direct3D", "Win32_Graphics_Direct3D11", "Win32_Graphics_Dxgi", "Win32_Graphics_Dxgi_Common", "Win32_System_DataExchange", "Win32_System_Memory", "Win32_System_Ole", "Win32_System_Threading", "Win32_UI_Input_Ime", "Win32_UI_Shell", "Win32_UI_WindowsAndMessaging"] }
windows-reactor = "*"
