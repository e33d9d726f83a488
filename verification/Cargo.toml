[package]
name = "inkwellkit"
version = "0.1.0"
edition = "2021"
publish = false

[dependencies]
inkwell = { version = "=0.1.1", features = ["llvm14-0"] }
# llvm-sys is inkwell's own dependency. It is named here for one reason:
# to have LLVM linked as a shared library.
llvm-sys = { version = "=140.1.3", features = ["prefer-dynamic"] }
either = { version = "=1.19.0" }
clap = { version = "=3.2.25", default-features = false, features = ["std"] }
