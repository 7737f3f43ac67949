[package]
name = "net-combiner"
version = "0.1.10"
edition = "2021"
publish = false

[dependencies]
anyhow = "=1.0.104"
clap = { version = "=4.6.7", default-features = false, features = ["derive", "error-context", "help", "std", "usage"] }
eframe = { version = "=0.32.3", default-features = false, features = ["default_fonts", "glow", "x11"] }
image = { version = "=0.25.10", default-features = false }
network-interface = "=2.0.5"
reqwest = { version = "=0.12.28", default-features = false }
self_update = { version = "=0.42.0", default-features = false, features = ["archive-tar", "compression-flate2", "rustls"] }
semver = "=1.0.28"
serde = { version = "=1.0.229", features = ["derive"] }
serde_json = "=1.0.154"
tokio = { version = "=1.54.1", features = ["io-util", "macros", "net", "rt-multi-thread", "signal", "sync", "time"] }
tokio-util = "=0.7.20"
tracing-subscriber = { version = "=0.3.23", default-features = false, features = ["env-filter", "fmt"] }
windows-sys = { version = "=0.59.0", features = ["Win32_Foundation", "Win32_Graphics_Gdi", "Win32_Security", "Win32_System_LibraryLoader", "Win32_System_SystemInformation", "Win32_System_Threading", "Win32_UI_Shell", "Win32_UI_WindowsAndMessaging"] }
