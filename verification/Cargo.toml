[package]
name = "commit_vanity"
version = "0.1.0"
edition = "2021"
publish = false

[dependencies]
sha1 = "*"
git2 = "*"
num_cpus = "*"
