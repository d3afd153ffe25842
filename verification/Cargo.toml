[package]
name = "plugin_host"
version = "0.1.0"
edition = "2021"
publish = false

[dependencies]
ctrlc = "*"
libloading = "*"
notify = "*"
zip = "*"
