//! General configuration of the window manager.
use vstd::prelude::*;
use crate::layouts::{Floating, Layout, Maximized, Tiling};
use crate::rules::Rule;

verus! {

/// General configuration of the window manager, read at start.
#[derive(Debug)]
pub struct Config {
    /// Names of the workspaces each screen gets.
    pub workspaces: Vec<&'static str>,
    /// Modifier names of the mouse move and resize actions.
    pub mouse_mod: Vec<&'static str>,
    /// Border color of unfocused windows, as ARGB.
    pub border_color: u32,
    /// Border color of the focused window, as ARGB.
    pub border_color_focus: u32,
    /// Border width of out-of-layout windows.
    pub border_width: u32,
    /// The layout registry.
    pub layouts: Vec<Layout>,
    /// Rules applied to new windows, in order.
    pub rules: Vec<Rule>,
    /// Whether hovering a window raises it as well as focusing it.
    pub mouse_raises_window: bool,
    /// Space kept free at the `(top, right, bottom, left)` of each screen
    /// by workspaces that respect it.
    pub reserved_space: (u16, u16, u16, u16),
}

impl Config {
    /// Nine workspaces "1" to "9", the Super key for mouse actions, black
    /// borders and a white focused one, 4 pixel floating borders, the three
    /// built-in layouts (tiling, maximized, floating) with their defaults, no
    /// rule, hovering raises, and no reserved space.
    pub fn new() -> (r: Config)
        ensures
            r.workspaces@.len() == 9,
            r.mouse_mod@.len() == 1,
            r.mouse_mod@[0]@ == "Super"@,
            r.border_color == 0xff000000,
            r.border_color_focus == 0xffffffff,
            r.border_width == 4,
            r.layouts@.len() == 3,
            r.layouts@[0] is Tiling,
            r.layouts@[1] is Maximized,
            r.layouts@[2] is Floating,
            r.rules@.len() == 0,
            r.mouse_raises_window,
            r.reserved_space == (0u16, 0u16, 0u16, 0u16),
    {
        proof {
            reveal_strlit("Super");
        }
        Config {
            workspaces: vec!["1", "2", "3", "4", "5", "6", "7", "8", "9"],
            mouse_mod: vec!["Super"],
            border_color: 0xff000000,
            border_color_focus: 0xffffffff,
            border_width: 4,
            mouse_raises_window: true,
            layouts: vec![
                Layout::Tiling(Tiling::new()),
                Layout::Maximized(Maximized::new()),
                Layout::Floating(Floating::new()),
            ],
            rules: Vec::new(),
            reserved_space: (0, 0, 0, 0),
        }
    }
}

} // verus!
