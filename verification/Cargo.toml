[package]
name = "phosphor"
version = "0.1.0"
edition = "2021"
publish = false

[dependencies]
rtrb = "=0.3.5"
natord = "=1.0.9"
toml = "=1.1.8"
serde = { version = "=1.0.229", features = ["derive"] }
serde_json = "=1.0.154"
csv = "=1.4.0"
crossbeam-channel = "=0.5.17"
spin_sleep = "=1.3.3"
atomic_float = "=1.1.0"
bytemuck = { version = "=1.25.2", features = ["derive"] }
levenberg-marquardt = "=0.15.0"
nalgebra = "=0.34.2"
anyhow = "=1.0.104"
symphonia = "=0.5.5"

[dev-dependencies]
nom = "=8.0.0"
