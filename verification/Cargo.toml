[package]
name = "music_rpc"
version = "3.0.0"
edition = "2021"
publish = false

[dependencies]
anyhow = "1"
discord-rich-presence = "0.2"
minreq = "2"
serde = { version = "1", features = ["derive"] }
serde_json = "1"
winreg = "0.52"
windows = { version = "0.58", features = ["Foundation", "Foundation_Collections", "Media_Control", "Win32_Foundation", "Win32_Media_Audio", "Win32_Media_Audio_Endpoints", "Win32_System_Com"] }
windows-sys = { version = "0.59", features = ["Win32_Foundation", "Win32_Graphics_Gdi", "Win32_Networking_WinHttp", "Win32_Security", "Win32_System_Console", "Win32_System_Diagnostics_Debug", "Win32_System_Diagnostics_ToolHelp", "Win32_System_LibraryLoader", "Win32_System_Memory", "Win32_System_Threading", "Win32_UI_Shell", "Win32_UI_WindowsAndMessaging"] }
