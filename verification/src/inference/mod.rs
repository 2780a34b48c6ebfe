pub mod ab_testing;
pub mod backend;
pub mod cache;
pub mod coordinator;
pub mod grammar;
pub mod kv_cache;
pub mod prompt_optimizer;
pub mod streaming;
