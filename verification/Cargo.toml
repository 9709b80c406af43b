[package]
name = "vexell"
version = "0.1.0"
edition = "2021"
publish = false

[dependencies]
image = { version = "0.25", default-features = false, features = ["png", "jpeg", "webp", "bmp", "ico", "tiff", "gif"] }
clap = { version = "4", features = ["derive"] }
console = "*"
ctrlc = "3"
dialoguer = "*"
glob = "0.3"
indicatif = "*"
oxipng = { version = "9", default-features = false, features = ["parallel"] }
rayon = "1"
resvg = "*"
rustyline = "*"
serde = { version = "1", features = ["derive"] }
tiny-skia = "*"
toml = "*"
usvg = "*"
webp = "*"
