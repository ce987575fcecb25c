[package]
name = "amm"
version = "0.1.0"
edition = "2021"
publish = false

[dependencies]
ink_allocator = "=3.0.0-rc5"
ink_env = "=3.0.0-rc5"
ink_lang = "=3.0.0-rc5"
ink_lang_codegen = "=3.0.0-rc5"
ink_lang_ir = "=3.0.0-rc5"
ink_lang_macro = "=3.0.0-rc5"
ink_metadata = "=3.0.0-rc5"
ink_prelude = "=3.0.0-rc5"
ink_primitives = "=3.0.0-rc5"
ink_storage = "=3.0.0-rc5"
ink_storage_derive = "=3.0.0-rc5"
parity-scale-codec = { version = "=2.3.1", features = ["derive"] }
scale-info = { version = "=0.6.0", features = ["derive"] }
