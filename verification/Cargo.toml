[package]
name = "lt"
version = "0.1.0"
edition = "2021"
publish = false

[dependencies]
metaflac = "=0.2.8"
num-format = "=0.4.4"
hound = "=3.5.1"
mp3-metadata = "=0.3.4"
id3 = "=1.17.2"
prettytable-rs = "=0.10.0"
linefeed = "=0.6.0"
clap = "=2.34.0"
structopt = "=0.3.26"
