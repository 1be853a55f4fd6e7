[package]
name = "nkscan"
version = "0.1.0"
edition = "2021"
publish = false

[dependencies]
anyhow = "=1.0.104"
clap = { version = "=4.6.7", features = ["derive"] }
console = "=0.16.6"
ctrlc = "=3.5.2"
image = { version = "=0.25.10", default-features = false }
indicatif = "=0.18.6"
numpy = "=0.30.0"
nusb = "=0.2.9"
pyo3 = { version = "=0.30.1", features = ["abi3-py310"] }
pyo3-stub-gen = "=0.23.2"
rayon = "=1.12.0"
serde = { version = "=1.0.229", features = ["derive"] }
serde_json = "=1.0.154"
tiff = "=0.11.3"
tracing = "=0.1.44"
tracing-subscriber = { version = "=0.3.23", features = ["env-filter"] }
viuer = "=0.11.0"
wide = "=1.7.1"
windows-sys = { version = "*", features = ["Win32_Foundation", "Win32_System_Console"] }
