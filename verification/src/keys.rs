//! Key events between the text service and the server: the event a preserved
//! shortcut is turned into, matching an event against a shortcut, the
//! preserved-key registration record, and the mode glyph.
use vstd::prelude::*;
use crate::shortcut::{effective_voice_combo, KeyCombo, Modifiers, ShortcutConfig};

verus! {

/// The physical modifier keys of a key event, plus the caps-lock and English
/// mode states the text service reports with it.
#[derive(Debug, Clone, Copy, PartialEq, Eq, Structural)]
pub struct KeyModifiers {
    pub ctrl: bool,
    pub shift: bool,
    pub alt: bool,
    pub win: bool,
    pub caps: bool,
    pub english_mode: bool,
}

/// A key press as the text service forwards it.
#[derive(Debug, Clone, Copy, PartialEq, Eq, Structural)]
pub struct KeyEvent {
    /// The Windows virtual-key code.
    pub virtual_key: u32,
    /// The character the key types, if any.
    pub character: Option<char>,
    pub modifiers: KeyModifiers,
}

/// The modifier chord of a set of modifiers: the four physical keys, with
/// caps lock and the English mode left out.
pub open spec fn chord_of(m: Modifiers) -> KeyModifiers {
    KeyModifiers { ctrl: m.control, shift: m.shift, alt: m.option, win: m.command, caps: false, english_mode: false }
}

impl KeyModifiers {
    /// Only the physical chord: caps lock and the English mode cleared.
    pub fn chord(&self) -> (r: KeyModifiers)
        ensures
            r == (KeyModifiers { caps: false, english_mode: false, ..*self }),
    {
        KeyModifiers { ctrl: self.ctrl, shift: self.shift, alt: self.alt, win: self.win, caps: false, english_mode: false }
    }

    /// The chord a set of configured modifiers stands for.
    pub fn from_modifiers(m: Modifiers) -> (r: KeyModifiers)
        ensures
            r == chord_of(m),
    {
        KeyModifiers { ctrl: m.control, shift: m.shift, alt: m.option, win: m.command, caps: false, english_mode: false }
    }
}

/// The upper-case form of an ASCII letter; other characters unchanged.
pub open spec fn ascii_upper(c: char) -> char {
    if 'a' <= c <= 'z' {
        ((c as u32) - 32) as char
    } else {
        c
    }
}

/// `char::to_ascii_uppercase`.
pub fn to_ascii_upper(c: char) -> (r: char)
    ensures
        r == ascii_upper(c),
{
    if 'a' <= c && c <= 'z' {
        (((c as u32) - 32) as u8) as char
    } else {
        c
    }
}

/// The key event a preserved shortcut is turned into when it fires: the
/// upper-cased key as virtual-key code, the key as character, and the
/// shortcut's modifiers as physical keys.
pub fn key_event(combo: KeyCombo, english_mode: bool) -> (r: KeyEvent)
    ensures
        r.virtual_key == ascii_upper(combo.key) as u32,
        r.character == Some(combo.key),
        r.modifiers == (KeyModifiers { english_mode, ..chord_of(combo.modifiers) }),
{
    let m = combo.modifiers;
    KeyEvent {
        virtual_key: to_ascii_upper(combo.key) as u32,
        character: Some(combo.key),
        modifiers: KeyModifiers {
            ctrl: m.control,
            shift: m.shift,
            alt: m.option,
            win: m.command,
            caps: false,
            english_mode,
        },
    }
}

/// An event matches a shortcut: same character, same physical chord.
pub open spec fn event_matches(event: KeyEvent, combo: KeyCombo) -> bool {
    event.character == Some(combo.key) && (KeyModifiers {
        caps: false,
        english_mode: false,
        ..event.modifiers
    }) == chord_of(combo.modifiers)
}

/// Compares an event with a shortcut by character and physical modifiers.
pub fn matches_combo(event: &KeyEvent, combo: KeyCombo) -> (r: bool)
    ensures
        r == event_matches(*event, combo),
{
    event.character == Some(combo.key) && event.modifiers.chord() == KeyModifiers::from_modifiers(combo.modifiers)
}

/// The event a fired shortcut is turned into matches that shortcut again on
/// the server, whatever the English mode.
pub proof fn law_fired_shortcut_matches(combo: KeyCombo, english_mode: bool)
    ensures
        forall|e: KeyEvent|
            e.character == Some(combo.key) && e.modifiers == (KeyModifiers { english_mode, ..chord_of(combo.modifiers) })
                ==> #[trigger] event_matches(e, combo),
{
}

/// An event is the shortcut exactly when it types the shortcut's key with the
/// shortcut's physical modifiers held and no other: Ctrl, Shift, Alt and Win
/// each as the shortcut says. Caps lock and the English mode do not matter.
pub proof fn law_shortcut_needs_its_chord(e: KeyEvent, combo: KeyCombo)
    ensures
        event_matches(e, combo) <==> (e.character == Some(combo.key) && e.modifiers.ctrl == combo.modifiers.control
            && e.modifiers.shift == combo.modifiers.shift && e.modifiers.alt == combo.modifiers.option
            && e.modifiers.win == combo.modifiers.command),
{
}

/// The TSF modifier flag of the Alt key (`TF_MOD_ALT`).
pub const TF_MOD_ALT: u32 = 0x0001;

/// The TSF modifier flag of the Control key (`TF_MOD_CONTROL`).
pub const TF_MOD_CONTROL: u32 = 0x0002;

/// The TSF modifier flag of the Shift key (`TF_MOD_SHIFT`).
pub const TF_MOD_SHIFT: u32 = 0x0004;

/// The TSF modifier flag used for the Windows key (`TF_MOD_LWIN` in msctf.h).
pub const TF_MOD_LWIN: u32 = 0x0008;

/// What a preserved key is registered with: the virtual-key code and the TSF
/// modifier flags.
#[derive(Debug, Clone, Copy, PartialEq, Eq, Structural)]
pub struct PreservedKey {
    pub virtual_key: u32,
    pub modifiers: u32,
}

/// The TSF modifier flags of a set of modifiers.
pub open spec fn tsf_flags(m: Modifiers) -> u32 {
    ((if m.control { TF_MOD_CONTROL } else { 0 }) + (if m.option { TF_MOD_ALT } else { 0 }) + (if m.shift {
        TF_MOD_SHIFT
    } else {
        0
    }) + (if m.command { TF_MOD_LWIN } else { 0 })) as u32
}

/// The registration record of a shortcut.
pub fn preserved_key(combo: KeyCombo) -> (r: PreservedKey)
    ensures
        r.virtual_key == ascii_upper(combo.key) as u32,
        r.modifiers == tsf_flags(combo.modifiers),
{
    let m = combo.modifiers;
    let mut modifiers: u32 = 0;
    if m.control {
        modifiers = modifiers + TF_MOD_CONTROL;
    }
    if m.option {
        modifiers = modifiers + TF_MOD_ALT;
    }
    if m.shift {
        modifiers = modifiers + TF_MOD_SHIFT;
    }
    if m.command {
        modifiers = modifiers + TF_MOD_LWIN;
    }
    PreservedKey { virtual_key: to_ascii_upper(combo.key) as u32, modifiers }
}

/// The translate-selection shortcut to register: the configured one when the
/// settings could be read, the default otherwise.
pub fn load_combo(loaded: Option<ShortcutConfig>) -> (r: KeyCombo)
    ensures
        r == match loaded {
            Some(config) => config.translate_selection,
            None => KeyCombo::spec_translate_default(),
        },
{
    match loaded {
        Some(config) => config.translate_selection,
        None => KeyCombo::translate_default(),
    }
}

/// The voice shortcut to register: the one in effect when the settings could
/// be read (so a clash with translate-selection is resolved the same way the
/// server resolves it), the default otherwise.
pub fn load_voice_combo(loaded: Option<ShortcutConfig>) -> (r: KeyCombo)
    ensures
        r == match loaded {
            Some(config) => effective_voice_combo(config),
            None => KeyCombo::spec_voice_default(),
        },
{
    match loaded {
        Some(config) => config.voice_combo(),
        None => KeyCombo::voice_default(),
    }
}

/// The glyph of the input-mode button.
#[derive(Debug, Clone, Copy, PartialEq, Eq, Structural)]
pub enum Glyph {
    Chinese,
    English,
    CapsLock,
}

/// Caps lock types upper-case English whatever the mode, so it wins.
pub fn glyph(caps_lock: bool, english: bool) -> (r: Glyph)
    ensures
        r == if caps_lock {
            Glyph::CapsLock
        } else if english {
            Glyph::English
        } else {
            Glyph::Chinese
        },
{
    if caps_lock {
        Glyph::CapsLock
    } else if english {
        Glyph::English
    } else {
        Glyph::Chinese
    }
}

/// The text the mode button shows for a glyph.
pub fn glyph_text(glyph: Glyph) -> (r: &'static str)
    ensures
        r@ == match glyph {
            Glyph::Chinese => "中"@,
            Glyph::English => "英"@,
            Glyph::CapsLock => "A"@,
        },
{
    match glyph {
        Glyph::Chinese => "中",
        Glyph::English => "英",
        Glyph::CapsLock => "A",
    }
}

} // verus!
