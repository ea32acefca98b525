[package]
name = "ihateborders"
version = "0.1.0"
edition = "2021"
publish = false

[dependencies]
anyhow = "=1.0.104"
eframe = { version = "=0.31.1", default-features = false, features = ["default_fonts", "glow", "wayland"] }
egui = { version = "=0.31.1", default-features = false }
image = { version = "=0.25.10", default-features = false, features = ["ico"] }
serde = { version = "=1.0.229", features = ["derive"] }
serde_json = "=1.0.154"
windows = { version = "=0.58.0", features = ["Win32_Foundation", "Win32_Graphics_Gdi", "Win32_System_Diagnostics_ToolHelp", "Win32_UI_Shell", "Win32_UI_WindowsAndMessaging"] }
