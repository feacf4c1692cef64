[package]
name = "payload_dumper"
version = "0.1.0"
edition = "2021"
publish = false

[dependencies]
liblzma = "=0.4.9"
zstd = "=0.14.3"
bzip2 = "=0.6.1"
brotli = "=9.1.1"
lz4_flex = "=0.14.0"
bsdiff = "=0.2.1"
hex = "=0.4.3"
byteorder = "=1.5.0"
prost = "=0.14.4"
serde = { version = "=1.0.229", features = ["derive"] }
serde_json = "=1.0.154"
clap = { version = "=4.6.7", features = ["derive"] }
anyhow = "=1.0.104"
sha2 = "=0.11.1"
indicatif = "=0.18.6"
num_cpus = "=1.17.0"
memmap2 = "=0.9.12"
reqwest = { version = "=0.13.5", features = ["blocking"] }
url = "=2.5.8"
puffdiff = "=0.1.0"
async-compression = { version = "=0.4.52", features = ["lz4", "xz", "bzip2", "zstd", "brotli", "futures-io"] }
futures = "=0.3.34"
ahash = "*"
