pub mod text;
pub mod crypto;
pub mod auth;
pub mod json;
pub mod accounts;
pub mod paths;
pub mod config;
pub mod config_toml;
pub mod switch;
pub mod process;
pub mod server;
pub mod status;
pub mod launch;
