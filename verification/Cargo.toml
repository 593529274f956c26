[package]
name = "ryzenmaster_monitor"
version = "0.1.0"
edition = "2021"
publish = false

[dependencies]
anyhow = "1"
hidapi = { version = "2", default-features = false, features = ["linux-native-basic-udev"] }
libloading = "0.8"
windows = { version = "0.58", features = ["Win32_Devices_DeviceAndDriverInstallation", "Win32_Devices_HumanInterfaceDevice", "Win32_Foundation", "Win32_Security", "Win32_Storage_FileSystem", "Win32_System_IO", "Win32_System_Services", "Win32_System_Threading"] }
