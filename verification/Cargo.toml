[package]
name = "tree_patch"
version = "0.1.0"
edition = "2021"
publish = false

[dependencies]
rbx_dom_weak = "1"
log = "0.4"
