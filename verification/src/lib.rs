//! A verified core for a Flutter SDK version manager: the on-disk layout,
//! the engine cache decisions, release selection and size formatting.
pub mod paths;
pub mod text;
pub mod util;
pub mod config;
pub mod engine_cache;
pub mod releases;
