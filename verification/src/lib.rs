//! ytkew -- a terminal YouTube Music player: the verified core.

pub mod queue;
pub mod text;
pub mod lyrics;
pub mod palette;
pub mod theme;
pub mod art;
pub mod kitty;
pub mod model;
pub mod api;
pub mod ui;
pub mod config;
pub mod app;
pub mod browser;
pub mod cli;
pub mod player;
pub mod mpris;
