[package]
name = "npc_core"
version = "0.1.0"
edition = "2021"
publish = false

[dependencies]
pathfinding = "4"
rand = "0.8"
