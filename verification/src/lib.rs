pub mod config;
pub mod git;
pub mod gitlab;
pub mod markdown;
pub mod style;
pub mod text;
pub mod tui;
