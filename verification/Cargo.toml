[package]
name = "octotablet"
version = "0.1.0"
edition = "2021"
publish = false

[dependencies]
smallvec = "1"
thiserror = "1"
raw-window-handle = "0.6"
wayland-client = "0.31"
wayland-backend = { version = "0.3", features = ["client_system", "dlopen"] }
wayland-protocols = { version = "0.31", features = ["client", "unstable"] }
x11rb = { version = "0.13", features = ["xinput"] }
windows = { version = "0.52", features = ["implement", "Win32_Foundation", "Win32_System_Com", "Win32_System_Com_Marshal", "Win32_UI_TabletPC", "Win32_UI_HiDpi"] }
