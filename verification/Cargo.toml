[package]
name = "pokemonsay"
version = "0.1.0"
edition = "2021"
publish = false

[dependencies]
anyhow = "*"
bytes = "*"
clap = { version = "*", features = ["derive", "env"] }
image = "*"
rand = "*"
reqwest = { version = "*", default-features = false, features = ["rustls-tls", "json", "blocking"] }
sea-orm = { version = "*", default-features = false, features = ["sqlx-sqlite", "runtime-tokio-rustls"] }
serde = { version = "*", features = ["derive"] }
serde_json = "*"
sha1_smol = "*"
tinytemplate = "*"
tokio = { version = "*", features = ["macros", "rt-multi-thread"] }
viuer = "*"
