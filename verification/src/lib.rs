//! The decision layer of the Bacak Wayland compositor.

pub mod animation;
pub mod atspi;
pub mod backend;
pub mod bluetooth;
pub mod blur;
pub mod bt_ipc;
pub mod carousel;
pub mod cli;
pub mod config;
pub mod controls;
pub mod decode_h264;
pub mod decoration;
pub mod emoji;
pub mod focus;
pub mod foreign_toplevel;
pub mod gestures;
pub mod grab;
pub mod handlers;
pub mod hotplug;
pub mod icons;
pub mod input;
pub mod json;
pub mod keyboard;
pub mod launcher;
pub mod pixels;
pub mod plugins;
pub mod qr;
pub mod remote_desktop;
pub mod tables;
pub mod text;
pub mod wm;
