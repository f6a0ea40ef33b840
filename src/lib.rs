//! A tiling and floating X window manager's core: the screen and workspace
//! model, focus navigation, placement rules, keybinds and layout geometry.
pub mod layouts;
pub mod rules;
pub mod screens;
pub mod keys;
pub mod config;
pub mod model;
pub mod wm;
