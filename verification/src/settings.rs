//! User-facing configuration handed to the coordinator at startup.

use vstd::prelude::*;

verus! {

/// Settings the coordinator reads at startup: the transcription credential,
/// whether finished text is pasted automatically, and whether the window
/// stays on top. The core treats these as read-only inputs; a non-empty
/// credential arms the hotkey.
pub struct AppSettings {
    pub groq_api_key: String,
    pub auto_paste: bool,
    pub always_on_top: bool,
}

impl AppSettings {
    pub fn new(groq_api_key: String, auto_paste: bool, always_on_top: bool) -> (s: AppSettings)
        ensures
            s.groq_api_key == groq_api_key,
            s.auto_paste == auto_paste,
            s.always_on_top == always_on_top,
    {
        AppSettings { groq_api_key, auto_paste, always_on_top }
    }
}

impl Default for AppSettings {
    /// An empty credential (the hotkey starts disarmed), with auto-paste and
    /// always-on-top switched on.
    fn default() -> (s: AppSettings)
        ensures
            s.groq_api_key@ == Seq::<char>::empty(),
            s.auto_paste == true,
            s.always_on_top == true,
    {
        AppSettings { groq_api_key: String::new(), auto_paste: true, always_on_top: true }
    }
}

} // verus!
