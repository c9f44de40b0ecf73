[package]
name = "g5500_hamlib_adaptor"
version = "0.1.0"
edition = "2021"
publish = false

[dependencies]
nom = "=8.0.0"
assign-resources = "=0.5.0"
defmt = "=1.2.0"
defmt-rtt = "=1.3.1"
embassy-executor = { version = "=0.10.0", features = ["executor-thread", "defmt"] }
embassy-futures = "=0.1.2"
embassy-net = { version = "=0.9.1", features = ["defmt", "tcp", "udp", "dhcpv4", "dhcpv4-hostname", "medium-ethernet", "proto-ipv4", "multicast"] }
embassy-net-wiznet = { version = "=0.3.0", features = ["defmt"] }
embassy-rp = { version = "=0.10.0", features = ["defmt", "unstable-pac", "time-driver", "critical-section-impl"] }
embassy-sync = { version = "=0.8.0", features = ["defmt"] }
embassy-time = { version = "=0.5.1", features = ["defmt"] }
embedded-hal-bus = "=0.3.0"
embedded-io-async = "=0.7.0"
format_no_std = "=1.2.0"
git-version = "=0.3.9"
heapless = "=0.9.3"
panic-probe = { version = "=1.0.0", features = ["print-defmt"] }
rand = { version = "0.9.5", default-features = false }
static_cell = "=2.1.1"
