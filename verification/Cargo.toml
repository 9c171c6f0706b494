[package]
name = "padlink"
version = "0.1.0"
edition = "2021"
publish = false

[dependencies]
async-hid = "=0.5.3"
crc-fast = "=1.10.0"
futures-util = "=0.3.34"
thiserror = "=2.0.21"
tokio = { version = "=1.54.1", features = ["macros", "rt-multi-thread", "signal", "time", "sync"] }
tokio-util = "=0.7.20"
windows = { version = "=0.58.0", features = ["Win32_Devices_Bluetooth", "Win32_Foundation", "Win32_System_IO"] }

[dev-dependencies]
zerocopy = "=0.8.63"
