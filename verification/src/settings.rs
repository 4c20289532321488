//! Application settings and their defaults.

use vstd::prelude::*;

verus! {

/// The user's application settings.
#[derive(Debug, Clone, Copy, PartialEq, Eq)]
pub struct AppSettings {
    pub app_autostart: bool,
    pub startup_delay_seconds: u64,
    pub close_to_tray: bool,
    pub keep_terminal_open: bool,
}

/// Default delay, in seconds, before auto-start commands run.
pub fn default_delay() -> (r: u64)
    ensures
        r == 3,
{
    3
}

/// Closing the window hides it to the tray by default.
pub fn default_close_to_tray() -> (r: bool)
    ensures
        r,
{
    true
}

/// Terminal windows stay open after their command by default.
pub fn default_keep_open() -> (r: bool)
    ensures
        r,
{
    true
}

impl Default for AppSettings {
    fn default() -> (r: Self)
        ensures
            !r.app_autostart,
            r.startup_delay_seconds == 3,
            r.close_to_tray,
            r.keep_terminal_open,
    {
        AppSettings {
            app_autostart: false,
            startup_delay_seconds: default_delay(),
            close_to_tray: default_close_to_tray(),
            keep_terminal_open: default_keep_open(),
        }
    }
}

} // verus!
