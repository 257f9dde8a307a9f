pub mod models;
pub mod api;
pub mod commands;
pub mod storage;
pub mod login;
