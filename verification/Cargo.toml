[package]
name = "edit_history"
version = "0.1.0"
edition = "2021"
publish = false

[dependencies]
serde = { version = "=1.0.229", features = ["derive"] }
serde_json = "=1.0.154"
json-patch = "=0.2.7"
quick-xml = "=0.22.0"
clap = { version = "=3.2.25", features = ["derive"] }
indicatif = { version = "=0.16.2", features = ["rayon"] }
# indicatif asks for console without its default features and does not build
# that way; naming console here gives it the features it needs.
console = "=0.16.6"
rayon = "=1.12.0"
csv = "=1.4.0"
tokio = { version = "=1.54.1", features = ["macros", "rt-multi-thread"] }
mongodb = "=2.8.2"
elasticsearch = { version = "=8.5.0-alpha.1", default-features = false, features = ["rustls-tls"] }
http = "=0.2.12"
url = "=2.5.8"
