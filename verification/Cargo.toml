[package]
name = "causal_relation_graphs"
version = "0.1.0"
edition = "2021"
publish = false
