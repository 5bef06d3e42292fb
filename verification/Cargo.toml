[package]
name = "i18n_scan"
version = "0.1.0"
edition = "2021"
publish = false

[dependencies]
clap = "=4.6.7"
swc_common = { version = "=26.0.0", features = ["tty-emitter"] }
swc_ecma_ast = "=29.0.2"
swc_ecma_parser = "=46.0.0"
swc_ecma_visit = "=29.0.0"
