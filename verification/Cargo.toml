[package]
name = "metal-attention"
version = "0.1.0"
edition = "2021"
publish = false

[dependencies]
bytemuck = "=1.25.2"
memmap2 = "=0.9.12"
thiserror = "=2.0.21"
objc2 = "=0.6.5"
objc2-foundation = "=0.3.2"
objc2-metal = "=0.3.2"
block2 = "=0.6.2"

[dev-dependencies]
half = "=2.7.1"
