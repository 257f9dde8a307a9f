pub mod models;
pub mod api;
pub mod commands;
pub mod login;
pub mod autostart;
