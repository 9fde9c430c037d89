//! Verified core of a stacking/tiling window manager for the River
//! Wayland compositor: layout arithmetic, window and output state,
//! rule matching, titlebar geometry and software drawing.

pub mod action;
mod arith;
pub mod context;
pub mod config;
pub mod frame;
pub mod layout;
pub mod menu;
pub mod output;
pub mod pixels;
pub mod render;
pub mod rule;
pub mod shapes;
pub mod titlebar;
pub mod window;
