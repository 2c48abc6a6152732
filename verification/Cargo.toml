[package]
name = "wire-desktop-forensic"
version = "0.1.0"
edition = "2021"
publish = false

[dependencies]
chromium-storage-indexeddb = "*"
forensicnomicon = "*"
forensicnomicon-core = "*"
thiserror = "*"
