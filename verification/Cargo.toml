[package]
name = "genetlink"
version = "0.1.0"
edition = "2021"
publish = false

[dependencies]
anyhow = "1"
byteorder = "1"
bytes = "0.5"
failure = "0.1"
ieee80211 = "*"
libc = "0.2"
log = "0.4"
netlink-packet-core = "0.2"
netlink-packet-utils = "0.3"
pcap = "0.7"
pretty_env_logger = "0.4"
radiotap = "1"
