[package]
name = "dglab_audio_link"
version = "0.1.0"
edition = "2021"
publish = false

[dependencies]
anyhow = "1"
eframe = { version = "=0.30.0", default-features = false, features = ["default_fonts", "glow", "x11"] }
egui = { version = "=0.30.0", default-features = false, features = ["default_fonts"] }
egui_plot = { version = "=0.30.0", default-features = false }
futures-util = { version = "0.3", default-features = false, features = ["sink", "std"] }
qrcodegen = "=1.8.0"
rfd = { version = "=0.15.4", default-features = false, features = ["xdg-portal", "tokio"] }
rustfft = "6"
serde = { version = "1", features = ["derive"] }
serde_json = "=1.0.154"
sys-locale = "=0.3.2"
tokio = { version = "1", features = ["macros", "net", "rt-multi-thread", "sync", "time"] }
tokio-tungstenite = "=0.28.0"
tracing = "0.1"
tracing-subscriber = { version = "0.3", default-features = false, features = ["env-filter", "fmt", "registry", "std"] }
uuid = { version = "=1.29.0", features = ["v4"] }
windows = { version = "=0.58.0", features = ["Win32_Devices_FunctionDiscovery", "Win32_Foundation", "Win32_Media_Audio", "Win32_Media_KernelStreaming", "Win32_Media_Multimedia", "Win32_Security", "Win32_System_Com", "Win32_System_Com_StructuredStorage", "Win32_System_Threading", "Win32_System_Variant", "Win32_UI_Shell_PropertiesSystem"] }
