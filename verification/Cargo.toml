[package]
name = "norminette_lsp"
version = "0.1.0"
edition = "2021"
publish = false

[dependencies]
lsp-server = "=0.7.9"
lsp-types = "=0.97.0"
serde = { version = "=1.0.229", features = ["derive"] }
serde_json = "=1.0.154"

[dev-dependencies]
nom = "=7.1.3"
