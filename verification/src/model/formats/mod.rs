pub mod bytes;
pub mod ggml;
pub mod value;
pub mod keys;
pub mod metadata;
pub mod gguf;
pub mod tensor_data;
