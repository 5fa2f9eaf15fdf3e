[package]
name = "aios_kernel"
version = "0.1.0"
edition = "2021"
publish = false

[dependencies]
fdt-parser = "=0.5.1"
spleen-font = { version = "=0.2.0", features = ["s8x16", "s16x32"] }
