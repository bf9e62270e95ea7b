[package]
name = "f429zi_logic"
version = "0.1.0"
edition = "2021"
publish = false

[dependencies]
heapless = "=0.8.0"
cortex-m = { version = "=0.7.10", features = ["critical-section-single-core"] }
cortex-m-rt = "=0.7.7"
defmt = "=1.2.0"
defmt-rtt = "=1.3.1"
panic-probe = { version = "=1.0.0", features = ["print-defmt"] }
embassy-executor = { version = "=0.9.1", features = ["defmt"] }
embassy-stm32 = { version = "=0.6.0", features = ["defmt", "stm32f429zi", "time-driver-tim2", "exti", "unstable-pac"] }
embassy-time = { version = "=0.5.1", features = ["defmt", "tick-hz-1_000_000"] }
embassy-sync = { version = "=0.8.0", features = ["defmt"] }
embassy-net = { version = "=0.9.1", features = ["defmt", "tcp", "proto-ipv4", "medium-ethernet"] }
libm = "=0.2.16"
