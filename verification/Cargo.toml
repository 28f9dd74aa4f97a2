[package]
name = "rookreader"
version = "0.1.0"
edition = "2021"
publish = false

[dependencies]
zip = "*"
unrar = "*"
pdfium-render = "*"
rbook = "*"
scraper = "*"
natord = "*"
image = "*"
fs-err = "*"
threadpool = "*"
num_cpus = "*"

[dev-dependencies]
tempfile = "*"
