[package]
name = "jukebox"
version = "0.1.0"
edition = "2021"
publish = false

[dependencies]
humantime = "2"
serenity = { version = "0.10", features = ["voice", "unstable_discord_api", "collector"] }
songbird = { version = "0.2", features = ["builtin-queue"] }
tokio = { version = "1", features = ["macros", "rt-multi-thread"] }
