[package]
name = "cosmic_greeter_daemon"
version = "0.1.0"
edition = "2021"
publish = false

[dependencies]
color-eyre = "0.6"
libc = "0.2"
nix = { version = "0.30", features = ["user", "fs"] }
pwd = "1.4"
ron = "0.11"
serde = { version = "1", features = ["derive"] }
tokio = { version = "1", features = ["macros", "rt-multi-thread"] }
tracing = "0.1"
tracing-journald = "0.3"
tracing-subscriber = { version = "0.3", features = ["env-filter"] }
whitespace-conf = "1"
xdg = "3"
zbus = { version = "5", default-features = false, features = ["tokio"] }
kdl = "6"
