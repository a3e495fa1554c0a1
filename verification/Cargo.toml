[package]
name = "caffeinate"
version = "0.1.0"
edition = "2021"
publish = false

[dependencies]
ctrlc = "3"
zbus = "5"
windows-sys = { version = "0.59", features = ["Win32_Foundation", "Win32_System_Power", "Win32_System_Threading"] }
