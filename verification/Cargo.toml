[package]
name = "proofcell"
version = "0.1.0"
edition = "2021"
publish = false

[dependencies]
open-hypergraphs = "*"
open-hypergraphs-dot = "*"
graphviz-rust = "*"
