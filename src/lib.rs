pub mod bulk;
pub mod error;
pub mod wasm_file;
pub mod wrapper;
