[package]
name = "strawbevy"
version = "0.1.0"
edition = "2021"
publish = false

[dependencies]
bevy_pkv = "0.8"
noise = "=0.8.2"
console_error_panic_hook = "=0.1.7"
