[package]
name = "simwheel"
version = "0.1.0"
edition = "2021"
publish = false

[dependencies]
anyhow = "1"
dotenvy = "*"
vjoy-sys = "*"
image = { version = "*", default-features = false, features = ["png"] }
plotters = "*"
windows = { version = "*", features = ["Win32_Foundation", "Win32_Graphics_Gdi", "Win32_System_Com", "Win32_System_LibraryLoader", "Win32_System_Memory", "Win32_UI_Input_KeyboardAndMouse", "Win32_UI_WindowsAndMessaging", "Win32_Devices_HumanInterfaceDevice"] }
