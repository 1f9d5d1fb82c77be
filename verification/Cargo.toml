[package]
name = "html_layout"
version = "0.1.0"
edition = "2021"
publish = false

[dependencies]
hyper = { version = "0.14", features = ["client", "http1", "tcp"] }
tokio = { version = "1", features = ["macros", "rt-multi-thread"] }
html5ever = "0.26"
markup5ever_rcdom = "0.2"
sdl2 = { version = "0.35", features = ["ttf", "image"] }
clap = { version = "3", features = ["derive"] }
strum = "0.24"
strum_macros = "0.24"
