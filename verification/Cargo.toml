[package]
name = "mysql_general_log"
version = "0.1.0"
edition = "2021"
publish = false

[dependencies]
chrono = "*"
u-siem = "*"
