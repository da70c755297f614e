[package]
name = "pony_core"
version = "0.1.0"
edition = "2021"
publish = false

[dependencies]
base64 = "=0.22.1"
image = { version = "=0.25.10", default-features = false, features = ["png"] }
sysinfo = "=0.30.13"
serde = { version = "=1.0.229", features = ["derive"] }
serde_json = "=1.0.154"
jwalk = "=0.8.1"
rayon = "=1.12.0"
tokio = { version = "=1.54.1", features = ["rt-multi-thread", "sync", "time", "macros"] }
tokio-util = "=0.7.20"
thiserror = "=1.0.69"
winreg = "=0.52.0"
windows = { version = "=0.52.0", features = ["Win32_Foundation", "Win32_Storage_FileSystem", "Win32_System_Services", "Win32_Security", "Win32_System_Com", "Win32_UI_Shell", "Win32_UI_WindowsAndMessaging", "Win32_Graphics_Gdi", "Win32_System_ProcessStatus", "Win32_System_Threading", "Win32_System_LibraryLoader", "Win32_System_SystemInformation", "Win32_UI_Input_KeyboardAndMouse"] }
