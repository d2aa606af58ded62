[package]
name = "webcapture"
version = "0.1.0"
edition = "2021"
publish = false

[dependencies]
gdk = "0.13"
gio = "0.9"
glib = "0.10"
gtk = "0.9"
log = "0.4"
webkit2gtk = "0.11"
