[package]
name = "wiot"
version = "0.1.0"
edition = "2021"
publish = false

[dependencies]
image = { version = "0.25", default-features = false, features = ["png", "jpeg", "gif", "webp", "avif", "rayon"] }
sha2 = "0.10"
anyhow = "1"
async-trait = "0.1"
bytemuck = "1"
clap = { version = "4", features = ["derive"] }
imageproc = { version = "0.25", default-features = false }
rayon = "1"
reqwest = { version = "0.12", default-features = false }
tokio = { version = "1", features = ["macros", "rt-multi-thread"] }
webp = "0.3"
