use qingjian::keys::{glyph, glyph_text, key_event, load_combo, load_voice_combo, matches_combo, preserved_key, to_ascii_upper, TF_MOD_CONTROL, TF_MOD_SHIFT};
use qingjian::shortcut::{KeyCombo, Modifiers, Platform, ShortcutConfig};

#[test]
fn old_files_without_modifier_keys_still_parse_and_get_defaults() {
    // A section that only sets the expression key keeps every other default.
    let default = ShortcutConfig::default_for(Platform::Windows).translation_keys(Platform::Windows);
    let mut parsed = ShortcutConfig::default_for(Platform::Windows);
    parsed.mode.expression = 'i';
    assert_eq!(parsed.mode.expression, 'i');
    assert_eq!(parsed.translation_keys(Platform::Windows), default);
    // Both keys set to the same value: an invalid pair, back to the defaults.
    let mut same = ShortcutConfig::default_for(Platform::Windows);
    same.translation = default.0;
    same.translation_second = default.0;
    assert_eq!(same.translation_keys(Platform::Windows), default);
    // Both set and different: used as given.
    let mut swapped = ShortcutConfig::default_for(Platform::Windows);
    swapped.translation = Modifiers::control_option();
    swapped.translation_second = Modifiers::option();
    assert_eq!(swapped.translation_keys(Platform::Windows).1, Modifiers::option());
}

#[test]
fn delete_keys_fall_back_when_clashing_with_translation_keys() {
    let parsed = ShortcutConfig::default_for(Platform::Windows);
    assert_eq!(parsed.delete_keys(Platform::Windows), Modifiers::shift());
    let mut clash = ShortcutConfig::default_for(Platform::Windows);
    clash.delete_candidate = ShortcutConfig::default_for(Platform::Windows).translation;
    assert_eq!(clash.delete_keys(Platform::Windows), Modifiers::shift());
    let mut custom = ShortcutConfig::default_for(Platform::Windows);
    custom.delete_candidate = Modifiers { control: false, option: false, shift: false, command: true };
    assert!(custom.delete_keys(Platform::Windows).command);
}

#[test]
fn translation_defaults_differ_by_platform() {
    assert_eq!(
        ShortcutConfig::default_for(Platform::Windows).translation_keys(Platform::Windows),
        (Modifiers::control(), Modifiers::shift_control())
    );
    assert_eq!(
        ShortcutConfig::default_for(Platform::Other).translation_keys(Platform::Other),
        (Modifiers::option(), Modifiers::shift_option())
    );
}

#[test]
fn an_empty_translation_key_falls_back_for_both() {
    let mut c = ShortcutConfig::default_for(Platform::Other);
    c.translation = Modifiers::none();
    c.translation_second = Modifiers::control();
    assert_eq!(c.translation_keys(Platform::Other), (Modifiers::option(), Modifiers::shift_option()));
}

#[test]
fn a_voice_shortcut_equal_to_translate_selection_falls_back() {
    let mut c = ShortcutConfig::default_for(Platform::Windows);
    c.voice = c.translate_selection;
    assert_eq!(c.voice_combo(), KeyCombo::voice_default());
    let mut d = ShortcutConfig::default_for(Platform::Windows);
    d.voice = KeyCombo { key: 'r', modifiers: Modifiers::control() };
    assert_eq!(d.voice_combo(), KeyCombo { key: 'r', modifiers: Modifiers::control() });
    assert_eq!(load_voice_combo(Some(c)), KeyCombo::voice_default());
    assert_eq!(load_voice_combo(None), KeyCombo::voice_default());
}

#[test]
fn a_fired_shortcut_matches_its_combo() {
    let combo = KeyCombo::voice_default();
    let event = key_event(combo, true);
    assert_eq!(event.virtual_key, 'V' as u32);
    assert!(matches_combo(&event, combo));
    assert!(!matches_combo(&event, KeyCombo::translate_default()));
    assert_eq!(to_ascii_upper('q'), 'Q');
    assert_eq!(to_ascii_upper('你'), '你');
}

#[test]
fn the_preserved_key_carries_the_text_service_flags() {
    let key = preserved_key(KeyCombo::voice_default());
    assert_eq!(key.virtual_key, 'V' as u32);
    assert_eq!(key.modifiers, TF_MOD_CONTROL | TF_MOD_SHIFT);
    assert_eq!(load_combo(None), KeyCombo::translate_default());
}

#[test]
fn the_mode_button_glyph() {
    assert_eq!(glyph_text(glyph(true, false)), "A");
    assert_eq!(glyph_text(glyph(true, true)), "A");
    assert_eq!(glyph_text(glyph(false, false)), "中");
    assert_eq!(glyph_text(glyph(false, true)), "英");
}
