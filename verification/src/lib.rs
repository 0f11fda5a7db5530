//! Watches a directory for action-camera clips and turns each session into one uploaded video.
pub mod clips;
pub mod command;
pub mod credentials;
pub mod encode;
pub mod errors;
pub mod gpu;
pub mod moving;
pub mod order;
pub mod paths;
pub mod pipeline;
pub mod publish;
pub mod quoting;
pub mod service;
pub mod sorting;
pub mod stamp;
pub mod text;
pub mod watcher;
