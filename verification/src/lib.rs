//! Verified core of a terminal client that searches an anime catalogue,
//! lists episodes and picks a video source to play.

pub mod app;
pub mod config;
pub mod events;
pub mod logger;
pub mod player;
pub mod resolver;
pub mod routes;
pub mod scraper;
pub mod security;
pub mod structs;
pub mod text;
pub mod ui;
