[package]
name = "launch"
version = "0.1.0"
edition = "2021"
publish = false

[dependencies]
anyhow = "1"
async-net = "2"
async-process = "2"
buildid = "*"
chrono = "0.4"
clap = { version = "4", features = ["derive"] }
dirs = "*"
fend-core = "1"
flume = "0.11"
fork = "*"
freedesktop-desktop-entry = "*"
freedesktop-icons = "*"
futures = "0.3"
hex = "0.4"
niri-ipc = "*"
nucleo-matcher = "0.3"
pulldown-cmark = { version = "*", default-features = false }
quick-xml = { version = "*", features = ["serialize"] }
regex = "1"
rmp-serde = "1"
ropey = { version = "=2.0.0-beta.1", features = ["metric_lines_lf", "metric_utf16"] }
serde = { version = "1", features = ["derive"] }
tracing = "0.1"
tracing-appender = "0.2"
tracing-subscriber = { version = "0.3", features = ["env-filter"] }
unicode-segmentation = "1"
urlencoding = "2"
uzers = "*"
zbus = "5"
zvariant = "5"
