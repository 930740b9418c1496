//! Verified decision logic of a desktop status bar.
pub mod audio;
pub mod audio_backend;
pub mod bar;
pub mod bar_features;
pub mod bluetooth;
pub mod bluetooth_agent;
pub mod bluetooth_backend;
pub mod brightness;
pub mod cache;
pub mod clock;
pub mod command;
pub mod gate;
pub mod json;
pub mod launcher;
pub mod network;
pub mod network_backend;
pub mod niri;
pub mod osd;
pub mod paths;
pub mod pending;
pub mod player;
pub mod power;
pub mod sort;
pub mod spectrum;
pub mod text;
pub mod text_set;
pub mod tooltip;
pub mod tray;
pub mod tray_items;
