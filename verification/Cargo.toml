[package]
name = "switchboard_function"
version = "0.1.0"
edition = "2021"
publish = false

[dependencies]
chrono = { version = "=0.4.45", default-features = false, features = ["now"] }
solana-program = "=1.18.26"
switchboard-solana = "=0.29.110"
tokio = { version = "=1.54.1", features = ["macros", "rt-multi-thread"] }
twitter-v2 = { version = "=0.1.8", default-features = false, features = ["oauth2", "rustls-tls"] }

[dev-dependencies]
spl-token = "=4.0.3"
