[package]
name = "wohnen"
version = "0.1.0"
edition = "2021"
publish = false

[dependencies]
strsim = "*"
diesel = { version = "*", features = ["sqlite"] }
libsqlite3-sys = { version = "*", features = ["bundled"] }
dotenvy = "*"
fltk = "*"
fltk-theme = "*"
