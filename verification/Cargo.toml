[package]
name = "minmands"
version = "0.1.0"
edition = "2021"
publish = false

[dependencies]
async-trait = "0.1"
clap = { version = "4", features = ["derive"] }
color-eyre = "0.6"
crossterm = "0.25"
hyper = { version = "0.14", features = ["server", "http1", "tcp"] }
iter_tools = "*"
log = "0.4"
open = "*"
rand = "0.8"
reqwest = { version = "0.11", default-features = false, features = ["json"] }
serde = { version = "1", features = ["derive"] }
tokio = { version = "1", features = ["rt-multi-thread", "macros", "time", "sync", "net"] }
toml = "0.7"
tracing = "0.1"
tracing-error = "0.2"
tracing-subscriber = { version = "0.3", features = ["env-filter"] }
tui = "0.19"
tui-logger = { version = "0.9", features = ["tracing-support"] }
twitch-irc = { version = "5", default-features = false, features = ["refreshing-token-rustls-webpki-roots", "transport-tcp-rustls-webpki-roots"] }
unicode-width = "0.1"
