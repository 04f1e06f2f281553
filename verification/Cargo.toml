[package]
name = "vapor_tap"
version = "0.1.0"
edition = "2021"
publish = false

[dependencies]
block2 = "=0.6.2"
chrono = { version = "=0.4.45", default-features = false, features = ["clock"] }
clap = { version = "=4.6.7", features = ["derive"] }
flexaudio-core = "=0.2.0"
flexaudio-os-windows = "=0.2.0"
futures-util = "=0.3.34"
objc2 = "=0.6.5"
objc2-core-audio = "=0.3.2"
objc2-core-audio-types = "=0.3.2"
objc2-core-foundation = "=0.3.2"
objc2-foundation = "=0.3.2"
rubato = "=0.16.2"
serde = { version = "=1.0.229", features = ["derive"] }
serde_json = "=1.0.154"
tokio = { version = "=1.54.1", features = ["macros", "net", "rt-multi-thread", "signal", "sync", "time"] }
tokio-tungstenite = { version = "=0.26.2", features = ["rustls-tls-native-roots"] }
windows = { version = "=0.54.0", features = ["Win32_Devices_FunctionDiscovery", "Win32_Foundation", "Win32_Media_Audio", "Win32_System_Com", "Win32_System_Com_StructuredStorage", "Win32_System_Threading", "Win32_System_Variant", "Win32_UI_Shell_PropertiesSystem"] }
