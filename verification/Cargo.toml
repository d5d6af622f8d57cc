[package]
name = "ifop"
version = "0.1.0"
edition = "2021"
publish = false

[dependencies]
windows = { version = "=0.58.0", features = ["Win32_UI_Shell", "Win32_System_Com", "Win32_Storage_FileSystem"] }
windows-core = "=0.58.0"
