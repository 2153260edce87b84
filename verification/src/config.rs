//! User settings.

use vstd::prelude::*;
use vstd::string::*;

verus! {

/// The colour theme of the panel.
#[derive(Debug, Clone, Copy, PartialEq, Eq, Structural)]
pub enum Theme {
    TerminalDark,
    TerminalLight,
}

/// What the user can configure.
#[derive(Debug)]
pub struct Settings {
    pub hotkey: String,
    pub launch_at_startup: bool,
    pub theme: Theme,
}

impl Settings {
    /// The settings of a fresh installation: the backquote key as hotkey, no
    /// launch at startup, the dark theme.
    pub open spec fn is_default(&self) -> bool {
        &&& self.hotkey@ == seq!['`']
        &&& !self.launch_at_startup
        &&& self.theme == Theme::TerminalDark
    }
}

impl Default for Settings {
    fn default() -> (r: Self)
        ensures
            r.is_default(),
    {
        proof {
            reveal_strlit("`");
        }
        let hotkey = String::from_str("`");
        assert(hotkey@ =~= seq!['`']);
        Settings { hotkey, launch_at_startup: false, theme: Theme::TerminalDark }
    }
}

impl Clone for Settings {
    fn clone(&self) -> (r: Self)
        ensures
            r.hotkey@ == self.hotkey@,
            r.launch_at_startup == self.launch_at_startup,
            r.theme == self.theme,
    {
        Settings {
            hotkey: self.hotkey.clone(),
            launch_at_startup: self.launch_at_startup,
            theme: self.theme,
        }
    }
}

} // verus!
