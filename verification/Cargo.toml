[package]
name = "chirpstack_mqtt_forwarder"
version = "0.1.0"
edition = "2021"
publish = false

[dependencies]
anyhow = "1"
async-trait = "0.1"
base64 = "0.22"
chirpstack_api = "4"
chrono = "0.4"
clap = { version = "4", features = ["derive"] }
handlebars = "6"
hex = "0.4"
humantime-serde = "1"
log = "0.4"
lrwn_filters = "4"
pbjson-types = "*"
rand = "0.8"
rumqttc = "0.24"
rustls-native-certs = "0.8"
rustls-pemfile = "2"
rustls-pki-types = "1"
serde = { version = "1", features = ["derive"] }
serde_json = "1"
signal-hook = "0.3"
simple_logger = "5"
syslog = "7"
tokio = { version = "1", features = ["full"] }
toml = "0.8"
url = "2"
zmq = "0.10"
