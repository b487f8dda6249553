[package]
name = "rtos_hazards"
version = "0.1.0"
edition = "2021"
publish = false
