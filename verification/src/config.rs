//! User preferences and the place where the UI layout is kept.

use vstd::prelude::*;

use crate::errors::ConfigError;
use crate::safety::SafetyMode;
use crate::text::{chars_of, owned, push_str};

verus! {

/// Theme preference.
#[derive(Debug, Clone, Copy, PartialEq, Eq, Structural)]
pub enum ThemePreference {
    /// Follow system theme.
    System,
    /// Light theme.
    Light,
    /// Dark theme.
    Dark,
}

impl Default for ThemePreference {
    fn default() -> (r: Self)
        ensures
            r == ThemePreference::System,
    {
        ThemePreference::System
    }
}

/// Meter scale type.
#[derive(Debug, Clone, Copy, PartialEq, Eq, Structural)]
pub enum MeterScale {
    /// Logarithmic (dB) scale — better for audio.
    Logarithmic,
    /// Linear scale.
    Linear,
}

impl Default for MeterScale {
    fn default() -> (r: Self)
        ensures
            r == MeterScale::Logarithmic,
    {
        MeterScale::Logarithmic
    }
}

/// Meter configuration.
#[derive(Debug, Clone, Copy, PartialEq, Eq, Structural)]
pub struct MeterConfig {
    /// Enable meters globally
    pub enabled: bool,
    /// Refresh rate in Hz
    pub refresh_rate: u32,
    /// Show peak hold
    pub show_peak_hold: bool,
    /// Peak hold decay time in ms
    pub peak_hold_decay_ms: u32,
    /// Meter scale type
    pub scale: MeterScale,
}

impl Default for MeterConfig {
    /// Meters on at 30 Hz, with peak hold decaying over 1.5 s, on a logarithmic scale.
    fn default() -> (r: Self)
        ensures
            r == (MeterConfig {
                enabled: true,
                refresh_rate: 30,
                show_peak_hold: true,
                peak_hold_decay_ms: 1500,
                scale: MeterScale::Logarithmic,
            }),
    {
        MeterConfig {
            enabled: true,
            refresh_rate: 30,
            show_peak_hold: true,
            peak_hold_decay_ms: 1500,
            scale: MeterScale::Logarithmic,
        }
    }
}

/// Behavior configuration.
#[derive(Debug, Clone, Copy, PartialEq, Eq, Structural)]
pub struct BehaviorConfig {
    /// Start in this safety mode
    pub startup_safety_mode: SafetyMode,
    /// Remember window position
    pub remember_window_position: bool,
    /// Auto-reconnect to PipeWire
    pub auto_reconnect: bool,
    /// Reconnect delay in ms
    pub reconnect_delay_ms: u32,
    /// Confirm before removing links
    pub confirm_link_removal: bool,
    /// Auto-save layout on exit
    pub auto_save_layout: bool,
}

impl Default for BehaviorConfig {
    /// Normal mode at startup, window position remembered, reconnecting after 1 s,
    /// no confirmation of link removal, layout saved on exit.
    fn default() -> (r: Self)
        ensures
            r == (BehaviorConfig {
                startup_safety_mode: SafetyMode::Normal,
                remember_window_position: true,
                auto_reconnect: true,
                reconnect_delay_ms: 1000,
                confirm_link_removal: false,
                auto_save_layout: true,
            }),
    {
        BehaviorConfig {
            startup_safety_mode: SafetyMode::Normal,
            remember_window_position: true,
            auto_reconnect: true,
            reconnect_delay_ms: 1000,
            confirm_link_removal: false,
            auto_save_layout: true,
        }
    }
}

/// Keyboard shortcuts configuration.
#[derive(Debug, Clone)]
pub struct ShortcutConfig {
    /// Open command palette
    pub command_palette: String,
    /// Panic mute
    pub panic_mute: String,
    /// Select all
    pub select_all: String,
    /// Delete selected
    pub delete_selected: String,
    /// Create group
    pub create_group: String,
    /// Toggle selected mute
    pub toggle_mute: String,
}

impl Default for ShortcutConfig {
    /// Ctrl+K for the palette, Ctrl+Shift+M for panic mute, Ctrl+A to select all,
    /// Delete to delete, Ctrl+G to group, M to toggle mute.
    fn default() -> (r: Self)
        ensures
            r.command_palette@ == "Ctrl+K"@,
            r.panic_mute@ == "Ctrl+Shift+M"@,
            r.select_all@ == "Ctrl+A"@,
            r.delete_selected@ == "Delete"@,
            r.create_group@ == "Ctrl+G"@,
            r.toggle_mute@ == "M"@,
    {
        ShortcutConfig {
            command_palette: owned("Ctrl+K"),
            panic_mute: owned("Ctrl+Shift+M"),
            select_all: owned("Ctrl+A"),
            delete_selected: owned("Delete"),
            create_group: owned("Ctrl+G"),
            toggle_mute: owned("M"),
        }
    }
}

/// A path with a file name appended, as a path join does: the name alone after an
/// empty path, no separator added after a trailing one.
pub open spec fn path_join(dir: Seq<char>, name: Seq<char>) -> Seq<char> {
    if dir.len() == 0 {
        name
    } else if dir.last() == '/' {
        dir + name
    } else {
        dir + "/"@ + name
    }
}

/// The text of the error given when the data directory cannot be determined.
pub open spec fn no_data_dir_reason() -> Seq<char> {
    "Failed to determine data directory"@
}

/// Manager for persisting UI state: it knows the file the layout is kept in.
#[derive(Debug)]
pub struct LayoutManager {
    path: String,
}

impl LayoutManager {
    /// The layout file.
    pub closed spec fn spec_path(&self) -> Seq<char> {
        self.path@
    }

    /// Creates a layout manager whose file is `layout.json` in the data directory;
    /// fails when the data directory could not be determined.
    pub fn new(data_dir: Option<String>) -> (r: Result<Self, ConfigError>)
        ensures
            match data_dir {
                Some(d) => r is Ok && r->Ok_0.spec_path() == path_join(d@, "layout.json"@),
                None => r matches Err(ConfigError::PathResolution(m)) && m@ == no_data_dir_reason(),
            },
    {
        match data_dir {
            Some(d) => {
                let path = join_path(d.as_str(), "layout.json");
                Ok(LayoutManager { path })
            },
            None => Err(ConfigError::PathResolution(owned("Failed to determine data directory"))),
        }
    }

    /// Returns the layout file.
    pub fn path(&self) -> (r: &str)
        ensures
            r@ == self.spec_path(),
    {
        self.path.as_str()
    }
}

/// Appends a file name to a directory path.
pub fn join_path(dir: &str, name: &str) -> (r: String)
    ensures
        r@ == path_join(dir@, name@),
{
    let chars = chars_of(dir);
    if chars.len() == 0 {
        return owned(name);
    }
    let mut s = owned(dir);
    if chars[chars.len() - 1] != '/' {
        push_str(&mut s, "/");
    }
    push_str(&mut s, name);
    s
}

}
