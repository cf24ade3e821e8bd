[package]
name = "file_sender"
version = "0.1.0"
edition = "2021"
publish = false

[dependencies]
clap = "=4.6.7"
error-chain = "=0.12.4"
gdk = "=0.18.2"
glib = "=0.18.5"
gtk = "=0.18.2"
hyper = "=0.10.16"
lazy_static = "=1.5.1"
mime_multipart = "=0.6.1"
rocket = "=0.5.1"
tempfile = "=3.27.0"
