[package]
name = "token_matcher"
version = "0.1.0"
edition = "2021"

[dependencies]
regex = "1"
regex-automata = "0.1"
regex-syntax = "0.6"
