pub mod encoding;
pub mod error;
pub mod inference;
pub mod k8s;
pub mod layer;
pub mod logging;
pub mod mcp;
pub mod model;
pub mod observability;
pub mod platform;
pub mod text;
