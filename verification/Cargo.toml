[package]
name = "assistant"
version = "0.1.0"
edition = "2021"
publish = false

[dependencies]
chrono = "=0.4.45"
cpal = "=0.15.3"
fastembed = { version = "=4.9.1", default-features = false }
# candle-core, which rustpotter scores with, compiles with half before 2.5 only
half = "=2.4.1"
rustpotter = "=3.0.2"
thiserror = "=1.0.69"
tts = "=0.26.3"
vosk = "=0.3.1"
