[package]
name = "paint_palette"
version = "0.1.0"
edition = "2021"
publish = false

[dependencies]
indexmap = "=1.9.3"
bitflags = "=2.13.2"
usvg = { version = "=0.49.0", default-features = false }
pathfinder_geometry = "=0.5.1"
pathfinder_content = "=0.5.0"
pathfinder_gpu = "=0.5.0"
pathfinder_resources = "=0.5.0"
pathfinder_ui = "=0.5.0"
nfd = "=0.0.4"

[dev-dependencies]
quickcheck = { version = "=1.1.0", default-features = false }
