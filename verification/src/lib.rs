//! Verified core of OnePage: a browser start page with a daily Bing
//! wallpaper, switchable search engines and categorised quick links,
//! plus a command-line tool that manages the links.

pub mod clock;
pub mod bing_wallpaper;
pub mod cli;
pub mod commands;
pub mod config;
pub mod handlers;
pub mod laws;
pub mod links;
pub mod text;
