//! The user's settings, shared by the daemon and the preferences window.

use vstd::prelude::*;

verus! {

/// How many clippings are kept and shown when no settings were saved.
pub const DEFAULT_CLIPPINGS: usize = 80;

/// The settings. `clear_history_flag` is how the preferences window asks
/// the daemon to forget the history: the daemon clears it and saves the
/// settings again with the flag off.
pub struct Config {
    pub remember_clippings: usize,
    pub display_clippings: usize,
    pub start_at_startup: bool,
    pub record_history: bool,
    pub clear_history_flag: bool,
}

impl Clone for Config {
    fn clone(&self) -> (c: Self)
        ensures
            c == *self,
    {
        Config { ..*self }
    }
}

impl Default for Config {
    /// Remember and show `DEFAULT_CLIPPINGS` clippings, start at login,
    /// record the clipboard, no pending request to clear.
    fn default() -> (c: Self)
        ensures
            c.remember_clippings == DEFAULT_CLIPPINGS,
            c.display_clippings == DEFAULT_CLIPPINGS,
            c.start_at_startup,
            c.record_history,
            !c.clear_history_flag,
    {
        Config {
            remember_clippings: DEFAULT_CLIPPINGS,
            display_clippings: DEFAULT_CLIPPINGS,
            start_at_startup: true,
            record_history: true,
            clear_history_flag: false,
        }
    }
}

} // verus!
