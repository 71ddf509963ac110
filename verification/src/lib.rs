//! Desktop fences: rectangular regions of the desktop that show a folder.
//!
//! The library decides; it never talks to the operating system.  Whoever runs
//! it makes the calls, hands their results in as plain values, and carries out
//! what comes back.

pub mod backdrop;
pub mod config;
pub mod desktop_icons;
pub mod dragout;
pub mod droptarget;
pub mod fence;
pub mod geometry;
pub mod global;
pub mod path;
pub mod pointer;
pub mod scale;
pub mod shellmenu;
pub mod sweep;
pub mod text;
pub mod transfer;
pub mod tray;
pub mod watcher;
pub mod window;
