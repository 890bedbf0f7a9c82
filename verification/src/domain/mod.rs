pub mod binary;
pub mod game;
pub mod runner;

pub use binary::BinaryType;
pub use game::{GameMetadata, GameTarget, LaunchOptions};
pub use runner::{Runner, RunnerBackend, RunnerKind};
