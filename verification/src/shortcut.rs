//! The `[shortcut]` settings: prefix mode keys plus the shell's modifier
//! combinations, with the fallbacks that keep them from clashing.
use vstd::prelude::*;

verus! {

/// A set of modifier keys (macOS names: control, option, shift, command).
#[derive(Debug, Clone, Copy, PartialEq, Eq, Structural)]
pub struct Modifiers {
    pub control: bool,
    pub option: bool,
    pub shift: bool,
    pub command: bool,
}

impl Modifiers {
    pub open spec fn spec_none() -> Modifiers {
        Modifiers { control: false, option: false, shift: false, command: false }
    }

    /// No modifier.
    #[verifier::when_used_as_spec(spec_none)]
    pub fn none() -> (r: Modifiers)
        ensures
            r == Self::spec_none(),
    {
        Modifiers { control: false, option: false, shift: false, command: false }
    }

    pub open spec fn spec_shift() -> Modifiers {
        Modifiers { control: false, option: false, shift: true, command: false }
    }

    /// Shift alone.
    #[verifier::when_used_as_spec(spec_shift)]
    pub fn shift() -> (r: Modifiers)
        ensures
            r == Self::spec_shift(),
    {
        Modifiers { control: false, option: false, shift: true, command: false }
    }

    pub open spec fn spec_control() -> Modifiers {
        Modifiers { control: true, option: false, shift: false, command: false }
    }

    /// Control alone.
    #[verifier::when_used_as_spec(spec_control)]
    pub fn control() -> (r: Modifiers)
        ensures
            r == Self::spec_control(),
    {
        Modifiers { control: true, option: false, shift: false, command: false }
    }

    pub open spec fn spec_shift_control() -> Modifiers {
        Modifiers { control: true, option: false, shift: true, command: false }
    }

    /// Shift and control.
    #[verifier::when_used_as_spec(spec_shift_control)]
    pub fn shift_control() -> (r: Modifiers)
        ensures
            r == Self::spec_shift_control(),
    {
        Modifiers { control: true, option: false, shift: true, command: false }
    }

    pub open spec fn spec_option() -> Modifiers {
        Modifiers { control: false, option: true, shift: false, command: false }
    }

    /// Option (Alt) alone.
    #[verifier::when_used_as_spec(spec_option)]
    pub fn option() -> (r: Modifiers)
        ensures
            r == Self::spec_option(),
    {
        Modifiers { control: false, option: true, shift: false, command: false }
    }

    pub open spec fn spec_shift_option() -> Modifiers {
        Modifiers { control: false, option: true, shift: true, command: false }
    }

    /// Shift and option.
    #[verifier::when_used_as_spec(spec_shift_option)]
    pub fn shift_option() -> (r: Modifiers)
        ensures
            r == Self::spec_shift_option(),
    {
        Modifiers { control: false, option: true, shift: true, command: false }
    }

    pub open spec fn spec_control_option() -> Modifiers {
        Modifiers { control: true, option: true, shift: false, command: false }
    }

    /// Control and option.
    #[verifier::when_used_as_spec(spec_control_option)]
    pub fn control_option() -> (r: Modifiers)
        ensures
            r == Self::spec_control_option(),
    {
        Modifiers { control: true, option: true, shift: false, command: false }
    }

    /// No modifier is held.
    pub fn is_empty(&self) -> (r: bool)
        ensures
            r == (*self == Modifiers::none()),
    {
        !self.control && !self.option && !self.shift && !self.command
    }
}

/// A key with its modifiers, such as Ctrl+Shift+V.
#[derive(Debug, Clone, Copy, PartialEq, Eq, Structural)]
pub struct KeyCombo {
    /// The key, as the lower-case character it types.
    pub key: char,
    pub modifiers: Modifiers,
}

impl KeyCombo {
    pub open spec fn spec_translate_default() -> KeyCombo {
        KeyCombo { key: 't', modifiers: Modifiers::spec_control_option() }
    }

    /// The default shortcut for translating the selected text: Ctrl+Alt+T.
    #[verifier::when_used_as_spec(spec_translate_default)]
    pub fn translate_default() -> (r: KeyCombo)
        ensures
            r == Self::spec_translate_default(),
    {
        KeyCombo { key: 't', modifiers: Modifiers::control_option() }
    }

    pub open spec fn spec_voice_default() -> KeyCombo {
        KeyCombo { key: 'v', modifiers: Modifiers::spec_shift_control() }
    }

    /// The default shortcut for voice input: Ctrl+Shift+V.
    #[verifier::when_used_as_spec(spec_voice_default)]
    pub fn voice_default() -> (r: KeyCombo)
        ensures
            r == Self::spec_voice_default(),
    {
        KeyCombo { key: 'v', modifiers: Modifiers::shift_control() }
    }
}

/// The prefix keys of the expression and question modes.
#[derive(Debug, Clone, Copy, PartialEq, Eq, Structural)]
pub struct ModeKeys {
    pub expression: char,
    pub question: char,
}

/// Which platform's defaults apply. Windows takes Alt+digit for its menus
/// (the text service never sees it), so the translation keys default to
/// Control there and to Option elsewhere.
#[derive(Debug, Clone, Copy, PartialEq, Eq, Structural)]
pub enum Platform {
    Windows,
    Other,
}

/// The `[shortcut]` section.
#[derive(Debug, Clone, Copy, PartialEq, Eq, Structural)]
pub struct ShortcutConfig {
    /// Expression and question mode keys.
    pub mode: ModeKeys,
    /// Digit plus these modifiers: commit the candidate's first translation.
    pub translation: Modifiers,
    /// Digit plus these modifiers: commit the candidate's second translation.
    pub translation_second: Modifiers,
    /// Translate the text selected in the application.
    pub translate_selection: KeyCombo,
    /// Digit plus these modifiers: delete the candidate.
    pub delete_candidate: Modifiers,
    /// Start and stop voice input.
    pub voice: KeyCombo,
}

/// The defaults of the section on a platform.
pub open spec fn shortcut_defaults(platform: Platform) -> ShortcutConfig {
    ShortcutConfig {
        mode: ModeKeys { expression: 'v', question: 'u' },
        translation: if platform == Platform::Windows { Modifiers::control() } else { Modifiers::option() },
        translation_second: if platform == Platform::Windows { Modifiers::shift_control() } else { Modifiers::shift_option() },
        translate_selection: KeyCombo::translate_default(),
        delete_candidate: Modifiers::shift(),
        voice: KeyCombo::voice_default(),
    }
}

/// The two translation modifier sets in effect: the configured pair when both
/// are set and differ, otherwise the platform defaults (never half of each).
pub open spec fn effective_translation_keys(c: ShortcutConfig, platform: Platform) -> (Modifiers, Modifiers) {
    if c.translation == c.translation_second || c.translation == Modifiers::none() || c.translation_second == Modifiers::none() {
        (shortcut_defaults(platform).translation, shortcut_defaults(platform).translation_second)
    } else {
        (c.translation, c.translation_second)
    }
}

/// The delete modifiers in effect: the configured set unless it is empty or
/// equal to either translation set in effect, otherwise the default (Shift).
pub open spec fn effective_delete_keys(c: ShortcutConfig, platform: Platform) -> Modifiers {
    let (first, second) = effective_translation_keys(c, platform);
    if c.delete_candidate == Modifiers::none() || c.delete_candidate == first || c.delete_candidate == second {
        Modifiers::shift()
    } else {
        c.delete_candidate
    }
}

/// The voice shortcut in effect: the configured one unless it is the same as
/// the translate-selection shortcut, in which case the default.
pub open spec fn effective_voice_combo(c: ShortcutConfig) -> KeyCombo {
    if c.voice == c.translate_selection {
        KeyCombo::voice_default()
    } else {
        c.voice
    }
}

impl ShortcutConfig {
    /// The defaults on a platform.
    pub fn default_for(platform: Platform) -> (r: ShortcutConfig)
        ensures
            r == shortcut_defaults(platform),
    {
        let windows = match platform {
            Platform::Windows => true,
            Platform::Other => false,
        };
        ShortcutConfig {
            mode: ModeKeys { expression: 'v', question: 'u' },
            translation: if windows { Modifiers::control() } else { Modifiers::option() },
            translation_second: if windows { Modifiers::shift_control() } else { Modifiers::shift_option() },
            translate_selection: KeyCombo::translate_default(),
            delete_candidate: Modifiers::shift(),
            voice: KeyCombo::voice_default(),
        }
    }

    /// The two translation modifier sets; when they are the same or one is
    /// empty, both fall back to the defaults together.
    pub fn translation_keys(&self, platform: Platform) -> (r: (Modifiers, Modifiers))
        ensures
            r == effective_translation_keys(*self, platform),
    {
        if self.translation == self.translation_second || self.translation.is_empty()
            || self.translation_second.is_empty()
        {
            let defaults = ShortcutConfig::default_for(platform);
            (defaults.translation, defaults.translation_second)
        } else {
            (self.translation, self.translation_second)
        }
    }

    /// The delete modifiers; empty or clashing with a translation set falls
    /// back to the default.
    pub fn delete_keys(&self, platform: Platform) -> (r: Modifiers)
        ensures
            r == effective_delete_keys(*self, platform),
    {
        let (first, second) = self.translation_keys(platform);
        if self.delete_candidate.is_empty() || self.delete_candidate == first
            || self.delete_candidate == second
        {
            ShortcutConfig::default_for(platform).delete_candidate
        } else {
            self.delete_candidate
        }
    }

    /// The voice shortcut; one that clashes with translate-selection falls back
    /// to the default, so the two are never registered as the same key.
    pub fn voice_combo(&self) -> (r: KeyCombo)
        ensures
            r == effective_voice_combo(*self),
    {
        if self.voice == self.translate_selection {
            KeyCombo::voice_default()
        } else {
            self.voice
        }
    }
}

/// The translation keys in effect are always two different, non-empty sets.
pub proof fn law_translation_keys_distinct(c: ShortcutConfig, platform: Platform)
    ensures
        effective_translation_keys(c, platform).0 != effective_translation_keys(c, platform).1,
        effective_translation_keys(c, platform).0 != Modifiers::none(),
        effective_translation_keys(c, platform).1 != Modifiers::none(),
{
}

/// The delete keys in effect are never empty, and never one of the translation
/// sets in effect, unless Shift itself is configured as a translation set.
pub proof fn law_delete_keys_never_clash(c: ShortcutConfig, platform: Platform)
    requires
        effective_translation_keys(c, platform).0 != Modifiers::shift(),
        effective_translation_keys(c, platform).1 != Modifiers::shift(),
    ensures
        effective_delete_keys(c, platform) != Modifiers::none(),
        effective_delete_keys(c, platform) != effective_translation_keys(c, platform).0,
        effective_delete_keys(c, platform) != effective_translation_keys(c, platform).1,
{
}

/// The defaults never trip their own fallbacks.
pub proof fn law_defaults_are_in_effect(platform: Platform)
    ensures
        effective_translation_keys(shortcut_defaults(platform), platform) == (
            shortcut_defaults(platform).translation,
            shortcut_defaults(platform).translation_second,
        ),
        effective_delete_keys(shortcut_defaults(platform), platform) == Modifiers::shift(),
        effective_voice_combo(shortcut_defaults(platform)) == KeyCombo::voice_default(),
{
}

/// The voice shortcut in effect never equals the translate-selection one,
/// unless translate-selection is set to the voice default itself.
pub proof fn law_voice_combo_never_clashes(c: ShortcutConfig)
    requires
        c.translate_selection != KeyCombo::voice_default(),
    ensures
        effective_voice_combo(c) != c.translate_selection,
{
}

/// The configured voice shortcut is the one in effect unless it is exactly
/// the translate-selection shortcut (same key and same modifiers); only that
/// clash falls back to the default.
pub proof fn law_configured_voice_combo_kept(c: ShortcutConfig)
    ensures
        c.voice.key != c.translate_selection.key ==> effective_voice_combo(c) == c.voice,
        c.voice.modifiers != c.translate_selection.modifiers ==> effective_voice_combo(c) == c.voice,
        c.voice.key == c.translate_selection.key && c.voice.modifiers == c.translate_selection.modifiers
            ==> effective_voice_combo(c) == KeyCombo::voice_default(),
{
}

} // verus!
