pub mod config;
pub mod domain;
pub mod error;
pub mod generators;
pub mod icon;
pub mod launcher;
pub mod paths;
pub mod pipeline;
pub mod probe;
pub mod runtime;
pub mod text;

pub use domain::{BinaryType, GameMetadata, GameTarget, LaunchOptions, Runner, RunnerBackend, RunnerKind};
pub use pipeline::detect::detect_binary_type;
pub use pipeline::setup::{run as run_setup, SetupOptions};
