[package]
name = "pastemp"
version = "0.1.0"
edition = "2021"
publish = false

[dependencies]
actix-multipart = "=0.7.2"
actix-utils = "=3.0.2"
actix-web = { version = "=4.18.1", default-features = false, features = ["macros", "cookies"] }
actix-web-lab = "=0.29.5"
anyhow = "=1.0.104"
askama = "=0.12.1"
askama_actix = "=0.14.0"
bonsaidb = { version = "=0.5.0", features = ["local", "async"] }
bonsaidb-files = { version = "=0.1.0", features = ["async"] }
chrono = "=0.4.45"
env_logger = "=0.11.11"
figment = { version = "=0.10.19", features = ["toml", "env"] }
futures = "=0.3.34"
futures-util = "=0.3.34"
include_dir = "=0.7.4"
log = "=0.4.34"
mime_guess = "=2.0.5"
rand = "=0.8.8"
serde = { version = "1", features = ["derive"] }
serde_with = { version = "=3.24.0", features = ["chrono_0_4"] }
syntect = { version = "=5.3.0", default-features = false, features = ["default-fancy"] }
thiserror = "=1.0.69"
tokio = { version = "=1.54.1", features = ["macros", "rt-multi-thread"] }
