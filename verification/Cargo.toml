[package]
name = "deep_link"
version = "0.1.0"
edition = "2021"
publish = false

[dependencies]
interprocess = { version = "1.2", default-features = false }
log = "0.4"
tauri-utils = "1"
windows-sys = { version = "0.48", features = ["Win32_Foundation", "Win32_UI_Input_KeyboardAndMouse", "Win32_UI_WindowsAndMessaging"] }
winreg = "0.50"
