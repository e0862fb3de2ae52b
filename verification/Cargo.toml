[package]
name = "ip_gacha_roll"
version = "0.1.0"
edition = "2021"
publish = false

[dependencies]
md5 = "=0.7.0"
sha2 = "=0.10.9"
serde = { version = "=1.0.229", features = ["derive"] }
serde_json = "=1.0.154"
anyhow = "=1.0.104"
log = "=0.4.35"
pretty_env_logger = "=0.5.0"
dotenv = "=0.15.0"
tokio = { version = "=1.54.1", features = ["full"] }
reqwest = { version = "=0.12.28", default-features = false, features = ["blocking", "cookies", "json", "rustls-tls"] }
teloxide = { version = "=0.17.0", default-features = false, features = ["macros", "rustls", "ctrlc_handler"] }
takecell = "=0.1.1"
dptree = "=0.5.1"
warp = { version = "=0.3.7", default-features = false }
surge-ping = "=0.9.1"
