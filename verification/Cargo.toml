[package]
name = "walksnail_osd_tool"
version = "0.1.0"
edition = "2021"
publish = false

[dependencies]
image = "0.24"
imageproc = "0.23"
rusttype = "0.9"
srtparse = "0.2"
crossbeam-channel = "0.5"
ffmpeg-sidecar = "*"
rayon = "1"
