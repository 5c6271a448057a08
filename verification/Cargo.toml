[package]
name = "nom_packrat"
version = "0.7.0"
edition = "2021"
publish = false

[dependencies]
nom = "7.1"
nom_locate = "4.2"
