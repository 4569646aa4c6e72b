[package]
name = "pyaco"
version = "0.1.0"
edition = "2021"
publish = false

[dependencies]
regex = "*"
glob = "*"
url = "*"
convert_case = "*"
clap = { version = "*", features = ["derive"] }
notify = "*"
notify-debouncer-mini = "*"
ureq = "*"
dunce = "*"
