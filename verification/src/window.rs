//! Window configuration values: how the main window opens at startup.
//! Reading and writing the configuration file happens outside this
//! crate.

use vstd::prelude::*;

verus! {

/// How the main window is presented when the application starts.
#[derive(Clone, Copy, Debug, PartialEq, Eq, Structural)]
pub enum WindowStartMode {
    Normal,
    Maximized,
    Minimized,
}

/// The persisted window configuration.
#[derive(Clone, Copy, Debug, PartialEq, Eq, Structural)]
pub struct WindowConfig {
    pub start_mode: WindowStartMode,
}

impl Default for WindowConfig {
    /// A missing or unreadable configuration opens the window normally.
    fn default() -> (r: Self)
        ensures
            r.start_mode == WindowStartMode::Normal,
    {
        WindowConfig { start_mode: WindowStartMode::Normal }
    }
}

} // verus!
