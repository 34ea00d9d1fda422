//! The desktop's configuration and its defaults.
use vstd::prelude::*;

verus! {

/// The whole configuration; each part falls back to its default.
#[derive(Debug, Clone)]
pub struct Config {
    pub theme: Theme,
    pub keybinds: Keybinds,
    pub statusbar: StatusbarConfig,
}

#[derive(Debug, Clone)]
pub struct Theme {
    pub name: String,
    pub accent: String,
}

#[derive(Debug, Clone)]
pub struct Keybinds {
    pub quit: String,
    pub focus_next: String,
    pub focus_prev: String,
    pub open_launcher: String,
    pub split_horizontal: String,
    pub split_vertical: String,
    pub close_pane: String,
}

#[derive(Debug, Clone)]
pub struct StatusbarConfig {
    pub show_clock: bool,
    pub show_cpu: bool,
    pub show_mem: bool,
    pub position: StatusbarPosition,
}

#[derive(Debug, Clone, Copy, PartialEq, Eq, Structural)]
pub enum StatusbarPosition {
    Top,
    Bottom,
}

impl Theme {
    /// The default theme: named "default", with a cyan accent.
    pub open spec fn is_default(&self) -> bool {
        &&& self.name@ == "default"@
        &&& self.accent@ == "cyan"@
    }
}

impl Keybinds {
    /// The default keys: q quits, Tab and BackTab move the focus, space opens the
    /// launcher, h and v split, x closes a pane.
    pub open spec fn is_default(&self) -> bool {
        &&& self.quit@ == "q"@
        &&& self.focus_next@ == "Tab"@
        &&& self.focus_prev@ == "BackTab"@
        &&& self.open_launcher@ == "space"@
        &&& self.split_horizontal@ == "h"@
        &&& self.split_vertical@ == "v"@
        &&& self.close_pane@ == "x"@
    }
}

impl StatusbarConfig {
    /// The default statusbar: clock, CPU and memory shown, at the bottom.
    pub open spec fn is_default(&self) -> bool {
        &&& self.show_clock
        &&& self.show_cpu
        &&& self.show_mem
        &&& self.position == StatusbarPosition::Bottom
    }
}

impl Config {
    /// The default configuration: each part at its default.
    pub open spec fn is_default(&self) -> bool {
        &&& self.theme.is_default()
        &&& self.keybinds.is_default()
        &&& self.statusbar.is_default()
    }
}

impl Default for Theme {
    fn default() -> (t: Self)
        ensures
            t.is_default(),
    {
        Theme { name: String::from_str("default"), accent: String::from_str("cyan") }
    }
}

impl Default for Keybinds {
    fn default() -> (k: Self)
        ensures
            k.is_default(),
    {
        Keybinds {
            quit: String::from_str("q"),
            focus_next: String::from_str("Tab"),
            focus_prev: String::from_str("BackTab"),
            open_launcher: String::from_str("space"),
            split_horizontal: String::from_str("h"),
            split_vertical: String::from_str("v"),
            close_pane: String::from_str("x"),
        }
    }
}

impl Default for StatusbarConfig {
    fn default() -> (s: Self)
        ensures
            s.is_default(),
    {
        StatusbarConfig {
            show_clock: true,
            show_cpu: true,
            show_mem: true,
            position: StatusbarPosition::Bottom,
        }
    }
}

impl Default for Config {
    fn default() -> (c: Self)
        ensures
            c.is_default(),
    {
        Config { theme: Theme::default(), keybinds: Keybinds::default(), statusbar: StatusbarConfig::default() }
    }
}

} // verus!
