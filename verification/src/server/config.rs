//! The settings the server acts on: `[voice]` and the parts of `[general]`,
//! `[shortcut]` and `[status_bar]` the router reads.
use vstd::prelude::*;
use vstd::std_specs::cmp::PartialEqSpecImpl;
use crate::frame::ThemeMode;
use crate::scheme::Scheme;
use crate::shortcut::KeyCombo;

verus! {

/// The `[voice]` section: local offline voice input.
///
/// Recognition models are not bundled (hundreds of megabytes that most users
/// never need); the user downloads one from the settings. Without a model the
/// switch has no effect and the keyboard works as always. Off by default: the
/// model must be fetched first, and audio is the most private kind of input.
#[derive(Debug)]
pub struct VoiceConfig {
    /// Attach the recognizer and answer the voice shortcut.
    pub enabled: bool,
    /// Which model tier to use; empty means the first tier of the catalog.
    pub tier: String,
}

impl VoiceConfig {
    /// Voice off, no tier chosen.
    pub fn off() -> (r: VoiceConfig)
        ensures
            !r.enabled,
            r.tier@.len() == 0,
    {
        VoiceConfig { enabled: false, tier: String::new() }
    }

    /// Same switch and same tier.
    pub fn same_as(&self, other: &VoiceConfig) -> (r: bool)
        ensures
            r == (self.enabled == other.enabled && self.tier@ == other.tier@),
    {
        self.enabled == other.enabled && self.tier == other.tier
    }
}

impl Clone for VoiceConfig {
    fn clone(&self) -> (r: VoiceConfig)
        ensures
            r.enabled == self.enabled,
            r.tier@ == self.tier@,
    {
        VoiceConfig { enabled: self.enabled, tier: self.tier.clone() }
    }
}

impl PartialEq for VoiceConfig {
    fn eq(&self, other: &VoiceConfig) -> (r: bool) {
        self.same_as(other)
    }
}

impl PartialEqSpecImpl for VoiceConfig {
    open spec fn obeys_eq_spec() -> bool {
        true
    }

    open spec fn eq_spec(&self, other: &VoiceConfig) -> bool {
        self.enabled == other.enabled && self.tier@ == other.tier@
    }
}

/// The settings the router reads.
#[derive(Debug, Clone, Copy)]
pub struct RouterConfig {
    /// The input scheme.
    pub scheme: Scheme,
    /// Full-width punctuation in Chinese mode.
    pub full_width: bool,
    /// Full-width punctuation in English mode.
    pub english_full_width: bool,
    /// Show the floating status bar.
    pub status_enabled: bool,
    /// The status bar's remembered top-left corner, in physical pixels.
    pub status_pos: Option<(i32, i32)>,
    /// Window appearance.
    pub theme: ThemeMode,
    /// The voice shortcut in effect.
    pub voice_combo: KeyCombo,
}

} // verus!
