//! Capture-region geometry, pixel-format conversion, clipboard bitmap
//! layout, window-title parsing and encoder planning for a screen-capture
//! tool, each with a contract that Verus proves.

mod arith;
pub mod region;
pub mod text;
pub mod anime_title;
pub mod selection;
pub mod clipboard;
pub mod export;
pub mod config;
pub mod hotkey;
pub mod overlay;
pub mod tools;
pub mod session;
