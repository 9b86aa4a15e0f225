[package]
name = "windows_os_info"
version = "0.1.0"
edition = "2021"
publish = false

[dependencies]
anyhow = "=1.0.104"
ffi = "=0.1.1"
intervaltree = "=0.2.7"
raw-cstr = "=0.1.4"
simics = "=0.2.6"
