//! Window-decoration engine: decides which top-level windows are listed, how a
//! window's border bits change when it is toggled, which windows the
//! auto-borderless policy touches, and how the icon cache ages its entries.
//!
//! Everything here works on plain values. The operating system and the user
//! interface are reached by the application around this library.

pub mod config;
pub mod display;
pub mod icon;
pub mod icon_cache;
pub mod labels;
pub mod process;
pub mod reconciler;
pub mod refresh;
pub mod session;
pub mod sort;
pub mod startup;
pub mod style;
pub mod text;
pub mod toggle;
pub mod window;
pub mod window_manager;
