pub mod actions;
pub mod app;
pub mod clock;
pub mod cloudflare;
pub mod config;
pub mod crypto;
pub mod editor;
pub mod hash;
pub mod http;
pub mod json;
pub mod logger;
pub mod ntfy_listener;
pub mod number;
pub mod pushover;
pub mod scheduler;
pub mod service;
pub mod smtp;
pub mod task;
pub mod text;
pub mod variables;

pub use app::App;
