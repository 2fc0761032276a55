[package]
name = "ggez-specs-hello-world"
version = "0.1.0"
edition = "2021"
publish = false

[dependencies]
cgmath = "=0.16.1"
ggez = "=0.5.1"
rhusics-core = "0.5"
rhusics-ecs = "0.5"
shrev = "=1.1.3"
specs = "=0.12.3"
