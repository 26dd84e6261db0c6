[package]
name = "static_serve"
version = "0.1.0"
edition = "2021"
publish = false

[dependencies]
actix-files = "0.6"
actix-web = { version = "4", features = ["rustls"] }
actix-web-httpauth = "0.6"
clap = { version = "3", features = ["cargo"] }
env_logger = "0.9"
log = "0.4"
mime_guess = "2"
rustls = "0.20"
rustls-pemfile = "1"
serde = { version = "1", features = ["derive"] }
sha2 = "0.10"
tera = "1"
time = { version = "0.3", features = ["formatting", "macros", "parsing"] }
toml = "0.5"
urlencoding = "2"
