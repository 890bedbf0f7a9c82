pub mod detect;
pub mod metadata;
pub mod setup;
