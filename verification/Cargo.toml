[package]
name = "clrd"
version = "0.1.0"
edition = "2021"
publish = false

[dependencies]
anyhow = "*"
clap = { version = "*", features = ["derive"] }
colored = "*"
crossterm = "*"
globset = "=0.4.20"
ignore = "*"
indicatif = "*"
num_cpus = "*"
oxc_allocator = "=0.139.0"
oxc_ast = "=0.139.0"
oxc_ast_visit = "=0.139.0"
oxc_parser = "=0.139.0"
oxc_span = "=0.139.0"
pathdiff = "=0.2.3"
ratatui = "*"
rayon = "*"
serde = { version = "*", features = ["derive"] }
serde_json = "*"
