[package]
name = "bmstu_os2_matrix_solver"
version = "0.1.0"
edition = "2021"
publish = false

[dependencies]
nalgebra = "*"
nalgebra-sparse = { version = "*", features = ["io"] }
rayon = "1"
clap = { version = "4", features = ["derive"] }
color-eyre = "0.6"
itertools = "*"
plotly = "*"
thiserror = "2"
tracing = "0.1"
tracing-error = "0.2"
tracing-subscriber = { version = "0.3", features = ["env-filter"] }
