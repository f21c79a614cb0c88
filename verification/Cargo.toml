[package]
name = "pipeless_ai"
version = "0.1.0"
edition = "2021"
publish = false

[dependencies]
uuid = { version = "=1.27.0", features = ["v4"] }
num_cpus = "=1.17.0"
serde_json = "=1.0.151"
serde = "=1.0.229"
serde_derive = "=1.0.229"
tokio = { version = "=1.53.2", features = ["full"] }
log = "=0.4.34"
env_logger = "=0.11.11"
sled = "=0.34.7"
clap = { version = "=4.6.7", features = ["derive"] }
warp = { version = "=0.4.3", features = ["server"] }
reqwest = { version = "=0.13.5", default-features = false, features = ["json", "blocking"] }
image = "=0.25.10"
base64 = "=0.23.1"
redis = "=1.7.1"
ctrlc = "=3.5.2"
