[package]
name = "muskitty_cascade"
version = "0.1.0"
edition = "2021"
publish = false

[dependencies]
muskitty-css = "=0.6.0"
muskitty-cssom = "=0.1.1"
muskitty-dom = "=0.2.1"
muskitty-selectors = { version = "=0.2.1", features = ["dom"] }

[dev-dependencies]
muskitty-html5-parser = "=0.2.1"
