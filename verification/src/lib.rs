//! Captura: the verified core of a menu-bar screenshot and screen-recording tool.
pub mod text;
pub mod paths;
pub mod config;
pub mod storage;
pub mod hotkeys;
pub mod capture;
pub mod encoder;
pub mod audio;
pub mod ui;
pub mod instance;
pub mod scripts;
