[package]
name = "regvm"
version = "0.1.0"
edition = "2021"
publish = false

[dependencies]
chrono = "0.4"
rand = "0.8"
linked_list_allocator = "0.10"
nom = "7"
