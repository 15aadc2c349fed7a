[package]
name = "arpflood"
version = "0.1.0"
edition = "2021"
publish = false

[dependencies]
ipnetwork = "*"
pnet_base = "*"
pnet_datalink = "*"
pnet_packet = "*"
termion = "*"
