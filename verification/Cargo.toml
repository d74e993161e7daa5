[package]
name = "dinha"
version = "0.1.0"
edition = "2021"
publish = false

[dependencies]
chrono = "=0.4.45"
diesel = { version = "=2.3.14", features = ["sqlite", "r2d2", "chrono"] }
libsqlite3-sys = { version = "=0.38.2", features = ["bundled"] }
notify = "=4.0.18"
dotenv = "=0.15.0"
env_logger = "=0.10.2"
log = "=0.4.34"
tui = "=0.19.0"
crossterm = "=0.25.0"
unicode-width = "=0.1.14"
