pub mod config;
pub mod desktop;
pub mod icon;
pub mod launcher;
