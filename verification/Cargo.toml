[package]
name = "exifrename"
version = "0.1.0"
edition = "2021"
publish = false

[dependencies]
anyhow = "=1.0.104"
clap = { version = "=4.6.7", features = ["derive"] }
kamadak-exif = "=0.6.1"
libc = "=0.2.191"
rayon = "=1.12.0"
tempfile = "=3.27.0"
walkdir = "=2.5.0"
windows-sys = { version = "=0.61.2", features = ["Win32_Foundation", "Win32_Storage_FileSystem"] }

[dev-dependencies]
funcfmt = "=0.3.0"
