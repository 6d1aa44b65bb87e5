[package]
name = "ms_roj"
version = "0.1.0"
edition = "2021"
publish = false

[dependencies]
rand = "0.7"
termion = "1.5"
gtk = "0.9"
glib = "0.10"
gio = "0.9"
gdk = "0.13"
gdk-pixbuf = "0.9"
