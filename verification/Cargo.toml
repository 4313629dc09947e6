[package]
name = "overbrowsered"
version = "0.1.0"
edition = "2021"
publish = false

[dependencies]
anyhow = "=1.0.104"
atspi = "=0.30.0"
freedesktop-desktop-entry = { version = "=0.8.4", default-features = false }
futures-lite = "=2.6.1"
ksni = { version = "=0.3.7", default-features = false, features = ["async-io"] }
windows-registry = "=0.100.0"
windows-sys = { version = "=0.61.2", features = ["Win32_Foundation", "Win32_Security", "Win32_System_Recovery", "Win32_System_Threading", "Win32_UI_Accessibility", "Win32_UI_Shell", "Win32_UI_WindowsAndMessaging"] }
winsafe = { version = "=0.0.29", features = ["advapi", "kernel", "ole", "shell", "user"] }
xdg = "=3.0.0"
zbus = "=5.19.0"
