//! Verified core of the Saola file manager.

pub mod cli;
pub mod config;
pub mod document;
pub mod icons;
pub mod ids;
pub mod integration;
pub mod keymap;
pub mod md5;
pub mod model;
pub mod modules;
pub mod order;
pub mod path;
pub mod percent;
pub mod text;
pub mod time;
