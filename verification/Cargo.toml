[package]
name = "minesweeper"
version = "0.1.0"
edition = "2021"
publish = false

[dependencies]
rand = "=0.10.3"
uuid = { version = "=1.29.1", features = ["v4"] }
serde = { version = "=1.0.229", features = ["derive"] }
serde_json = "=1.0.154"
axum = { version = "=0.8.9", features = ["ws"] }
tokio = { version = "=1.54.1", features = ["full"] }
tower-http = { version = "=0.6.11", features = ["fs"] }
futures = "=0.3.34"
futures-util = "=0.3.34"
eframe = { version = "*", default-features = false, features = ["default_fonts", "glow", "x11"] }
egui = "*"
egui_extras = { version = "*", features = ["image"] }
image = { version = "*", default-features = false, features = ["png"] }
ewebsock = "*"
console_error_panic_hook = "*"
wasm-bindgen-futures = "*"
