[package]
name = "rtsp_client"
version = "0.1.0"
edition = "2021"
publish = false

[dependencies]
openh264 = "*"
tokio = { version = "1", features = ["macros", "net", "rt-multi-thread"] }
