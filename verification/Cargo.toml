[package]
name = "a_fast_clipboard"
version = "0.1.0"
edition = "2021"
publish = false

[dependencies]
anyhow = "=1.0.104"
arboard = { version = "3", default-features = false, features = ["image-data"] }
lz4_flex = "=0.11.6"
raw-window-handle = "=0.6.2"
reqwest = { version = "0.12", default-features = false, features = ["blocking", "json", "rustls-tls"] }
rusqlite = { version = "=0.37.0", features = ["bundled"] }
semver = "=1.0.28"
serde = { version = "1", features = ["derive"] }
sha2 = "=0.10.9"
slint = { version = "=1.18.1", default-features = false, features = ["compat-1-2", "std"] }
windows-sys = { version = "=0.61.2", features = ["Win32_Foundation", "Win32_System_DataExchange", "Win32_System_LibraryLoader", "Win32_System_Registry", "Win32_System_Threading", "Win32_Security", "Win32_Graphics_Gdi", "Win32_UI_Input_KeyboardAndMouse", "Win32_UI_WindowsAndMessaging"] }
