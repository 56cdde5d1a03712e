//! Process-wide toggle state.

use vstd::prelude::*;

verus! {

/// Application state: whether inline badges are shown.
pub struct AppState {
    inline_enabled: bool,
}

impl AppState {
    /// Whether inline badges are currently enabled.
    pub closed spec fn inline_spec(&self) -> bool {
        self.inline_enabled
    }

    /// Inline badges start enabled.
    pub fn new() -> (r: Self)
        ensures
            r.inline_spec(),
    {
        AppState { inline_enabled: true }
    }

    pub fn is_inline_enabled(&self) -> (r: bool)
        ensures
            r == self.inline_spec(),
    {
        self.inline_enabled
    }

    /// Flips the toggle and reports the new state.
    pub fn toggle_inline(&mut self) -> (r: bool)
        ensures
            final(self).inline_spec() == !old(self).inline_spec(),
            r == final(self).inline_spec(),
    {
        self.inline_enabled = !self.inline_enabled;
        self.inline_enabled
    }
}

impl Default for AppState {
    fn default() -> (r: Self)
        ensures
            r.inline_spec(),
    {
        AppState::new()
    }
}

} // verus!
