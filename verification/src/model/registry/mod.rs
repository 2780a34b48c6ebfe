pub mod huggingface;
pub mod ollama;
