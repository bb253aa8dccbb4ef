[package]
name = "remindee"
version = "0.1.0"
edition = "2021"
rust-version = "1.95"
publish = false

[dependencies]
async-trait = "=0.1.92"
chrono = "=0.4.45"
chrono-tz = "=0.8.6"
cron-parser = "=0.12.0"
sea-orm = { version = "=0.10.7", default-features = false, features = ["macros", "runtime-tokio-rustls", "sqlx-sqlite", "with-chrono"] }
sea-orm-migration = { version = "=0.10.7", default-features = false, features = ["runtime-tokio-rustls", "sqlx-sqlite"] }
# Not called by this crate: teloxide-core depends on it, and its release 0.1.2
# asks for rustc 1.96. Held at the last release that builds with rustc 1.95.
takecell = "=0.1.1"
teloxide = { version = "=0.11.3", default-features = false, features = ["rustls"] }
tokio = { version = "=1.54.1", features = ["macros", "rt-multi-thread", "time"] }
