[package]
name = "live_ocr_translator"
version = "0.1.0"
edition = "2021"
publish = false

[dependencies]
dotenv = "0.15"
gtk = "0.18"
reqwest = { version = "0.12", default-features = false, features = ["blocking", "rustls-tls"] }
rusty-tesseract = "1"
serde = { version = "1", features = ["derive"] }
serde_json = "1"
thiserror = "1"
windows = { version = "0.48", features = ["Foundation", "Graphics", "Graphics_Capture", "Graphics_DirectX", "Graphics_DirectX_Direct3D11", "Graphics_Imaging", "Storage", "Storage_Streams", "Win32_Foundation", "Win32_Graphics_Direct3D", "Win32_Graphics_Direct3D11", "Win32_Graphics_Dxgi", "Win32_Graphics_Dxgi_Common", "Win32_Graphics_Dwm", "Win32_Graphics_Gdi", "Win32_System_WinRT", "Win32_System_WinRT_Direct3D11", "Win32_System_WinRT_Graphics_Capture", "Win32_UI_WindowsAndMessaging"] }
windows-sys = { version = "0.48", features = ["Win32_Foundation", "Win32_UI_WindowsAndMessaging"] }
