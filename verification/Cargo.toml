[package]
name = "lexer"
version = "0.1.0"
edition = "2021"
publish = false

[dependencies]
itertools = "*"
codegen = "*"
no-comment = "*"
anyhow = "1"
async-trait = "0.1"
colored = "*"
console = "*"
lazy_static = "1"
serde = { version = "1", features = ["derive"] }
thiserror = "1"
tokio = { version = "1", features = ["macros", "rt-multi-thread"] }
gccjit = "*"
llvm-sys = "*"
