[package]
name = "whatcolor"
version = "0.1.0"
edition = "2021"
publish = false

[dependencies]
egui = "0.30"
eframe = { version = "0.30", default-features = false, features = ["default_fonts", "glow", "x11"] }
image = { version = "0.25", default-features = false, features = ["ico", "png"] }
arboard = "3"
anyhow = "1"
windows = { version = "0.58", features = ["Win32_Foundation", "Win32_Graphics_Gdi", "Win32_UI_WindowsAndMessaging"] }
