//! Decision logic of an inference extension: loading ONNX models from local
//! files or remote URLs, caching the remote ones on disk, and answering calls
//! with status codes and JSON text.
//!
//! The library performs no I/O. What the world answers (a directory listing,
//! the outcome of a request, the outcome of a file operation) comes in as plain
//! values, and what is to be done next goes out as plain values.

pub mod api;
pub mod autoload;
pub mod cache;
pub mod cache_key;
pub mod clear;
pub mod config;
pub mod download;
pub mod error;
pub mod eviction;
pub mod fetch_laws;
pub mod file_name;
pub mod json;
pub mod registry;
pub mod remote;
pub mod temp_file;
pub mod text;

pub use crate::api::{
    fetched_path, find_model, finish_autoload, finish_load, finish_model_info, finish_status,
    infera_clear_cache, infera_get_cache_info, infera_get_loaded_models, infera_get_model_info, infera_get_version,
    infera_load_model, infera_predict, infera_predict_from_blob, infera_set_autoload_dir,
    infera_unload_model, LoadRequest, ModelSource,
};
pub use crate::error::{InferaError, LastError};
pub use crate::registry::ModelRegistry;
