[package]
name = "gecko_core"
version = "0.1.0"
edition = "2021"
publish = false

[dependencies]
git2 = "=0.21.0"
markdown = "=1.0.0"
humansize = "=2.1.3"
sha2 = "=0.11.0"
time = { version = "=0.3.55", features = ["formatting"] }
serde = { version = "=1.0.229", features = ["derive"] }
actix-web = "=4.15.0"
