[package]
name = "traffic_engine"
version = "0.1.0"
edition = "2021"
publish = false

[dependencies]
anyhow = "=1.0.104"
egui = "=0.31.1"
egui-macroquad = "=0.17.3"
etherparse = "=0.13.0"
macroquad = "=0.4.16"
pcap = "=2.5.0"
