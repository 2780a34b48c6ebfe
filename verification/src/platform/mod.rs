pub mod hardware;
pub mod simd;
