[package]
name = "gh_issue_preview"
version = "0.1.0"
edition = "2021"
publish = false

[dependencies]
mdbook = { version = "0.4", default-features = false }
regex = "1"
reqwest = { version = "0.12", features = ["blocking", "json"] }
serde = { version = "1", features = ["derive"] }
serde_json = "1"
