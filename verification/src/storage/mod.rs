pub mod kv;
pub mod kv_core;
