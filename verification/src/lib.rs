pub mod text;
pub mod config_map;
pub mod style;
pub mod terminal;
pub mod state;
pub mod tabs;
pub mod config;
pub mod protocol;
pub mod render;
pub mod views;
pub mod host;
pub mod plugin;
