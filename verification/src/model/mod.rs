pub mod delta;
pub mod download;
pub mod formats;
pub mod format_selector;
pub mod inference;
pub mod lifecycle;
pub mod local_engine;
pub mod manager;
pub mod metadata;
pub mod merging;
pub mod proxy;
pub mod recommender;
pub mod source;
pub mod registry;
pub mod remote;
pub mod resource_manager;
