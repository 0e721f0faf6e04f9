[package]
name = "andromeda-subscription"
version = "0.1.0"
edition = "2021"
publish = false

[dependencies]
andromeda-std = "*"
cosmwasm-schema = "1.5"
cosmwasm-std = "1.5"
cw-storage-plus = "1.2"
cw-utils = "1.0"
cw20 = "1.1"
cw721 = "0.18"
