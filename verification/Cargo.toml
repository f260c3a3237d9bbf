[package]
name = "llm_term"
version = "0.1.0"
edition = "2021"
publish = false

[dependencies]
clap = "*"
colored = "*"
openai_api_rust = "*"
