[package]
name = "silanes"
version = "0.1.0"
edition = "2021"
publish = false

[dependencies]
chrono = "0.4"
reqwest = { version = "0.12", features = ["blocking"] }
serde = { version = "1", features = ["derive"] }
serde_yaml = "0.9"
sha2 = "0.10"
windows = { version = "0.58", features = ["Win32_Foundation", "Win32_Security", "Win32_System_Registry", "Win32_System_Services", "Win32_System_Threading", "Win32_System_StationsAndDesktops", "Win32_Storage_FileSystem", "Win32_System_Console", "Win32_System_Diagnostics_ToolHelp", "Win32_UI_WindowsAndMessaging"] }
