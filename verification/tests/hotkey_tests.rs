use std::sync::Mutex;

use openless::hotkeys::{
    apply_dictation_hotkey, apply_open_app_hotkey, apply_qa_hotkey, apply_switch_style_hotkey,
    apply_translation_hotkey, binding_from_legacy_trigger, legacy_modifier_trigger, parse_global_hotkey, persist_settings,
    reject_bare_shift_dictation_shortcut, reject_dictation_qa_hotkey_overlap,
    reject_dictation_translation_hotkey_overlap, reject_modifier_only_action_shortcut,
    shortcut_bindings_overlap, sync_dictation_hotkey_legacy_fields, validate_binding,
    SettingsWriter,
};
use openless::prefs::{
    ComboBinding, HotkeyBinding, HotkeyMode, HotkeyTrigger, ShortcutBinding, UserPreferences,
};

#[derive(Default)]
struct FakeSettingsWriter {
    saved: Mutex<Option<UserPreferences>>,
    dictation_refreshes: Mutex<u32>,
    qa_refreshes: Mutex<u32>,
    combo_refreshes: Mutex<u32>,
}

impl SettingsWriter for FakeSettingsWriter {
    fn write_settings(&self, prefs: UserPreferences) -> Result<(), String> {
        *self.saved.lock().unwrap() = Some(prefs);
        Ok(())
    }

    fn refresh_dictation_hotkey(&self) {
        *self.dictation_refreshes.lock().unwrap() += 1;
    }

    fn refresh_qa_hotkey(&self) {
        *self.qa_refreshes.lock().unwrap() += 1;
    }

    fn refresh_combo_hotkey(&self) {
        *self.combo_refreshes.lock().unwrap() += 1;
    }

    fn refresh_translation_hotkey(&self) {}
    fn refresh_switch_style_hotkey(&self) {}
    fn refresh_open_app_hotkey(&self) {}
}

#[test]
fn persist_settings_refreshes_both_hotkey_pipelines() {
    let writer = FakeSettingsWriter::default();
    let prefs = UserPreferences {
        hotkey: HotkeyBinding {
            trigger: HotkeyTrigger::RightControl,
            mode: HotkeyMode::Toggle,
            ..Default::default()
        },
        qa_hotkey: Some(ShortcutBinding {
            primary: ";".to_string(),
            modifiers: vec!["ctrl".to_string(), "shift".to_string()],
        }),
        ..Default::default()
    };

    persist_settings(&writer, prefs.clone()).unwrap();

    let saved = writer.saved.lock().unwrap().clone().expect("settings saved");
    assert_eq!(saved.hotkey.trigger, HotkeyTrigger::RightOption);
    assert_eq!(saved.hotkey.mode, prefs.hotkey.mode);
    assert_eq!(saved.qa_hotkey.unwrap().primary, prefs.qa_hotkey.unwrap().primary);
    assert_eq!(*writer.dictation_refreshes.lock().unwrap(), 1);
    assert_eq!(*writer.qa_refreshes.lock().unwrap(), 1);
    assert_eq!(*writer.combo_refreshes.lock().unwrap(), 1);
}

#[test]
fn sync_dictation_hotkey_sets_modifier_trigger_and_clears_combo() {
    let mut prefs = UserPreferences {
        hotkey: HotkeyBinding { trigger: HotkeyTrigger::Custom, mode: HotkeyMode::Toggle, keys: None },
        custom_combo_hotkey: Some(ComboBinding {
            primary: "D".into(),
            modifiers: vec!["cmd".into(), "shift".into()],
        }),
        dictation_hotkey: ShortcutBinding { primary: "RightControl".into(), modifiers: vec![] },
        ..Default::default()
    };

    sync_dictation_hotkey_legacy_fields(&mut prefs);

    assert_eq!(prefs.hotkey.trigger, HotkeyTrigger::RightControl);
    assert!(prefs.custom_combo_hotkey.is_none());
}

#[test]
fn sync_dictation_hotkey_sets_custom_trigger_and_combo_binding() {
    let mut prefs = UserPreferences {
        hotkey: HotkeyBinding {
            trigger: HotkeyTrigger::RightControl,
            mode: HotkeyMode::Toggle,
            keys: None,
        },
        dictation_hotkey: ShortcutBinding {
            primary: "D".into(),
            modifiers: vec!["cmd".into(), "shift".into()],
        },
        ..Default::default()
    };

    sync_dictation_hotkey_legacy_fields(&mut prefs);

    assert_eq!(prefs.hotkey.trigger, HotkeyTrigger::Custom);
    let combo = prefs.custom_combo_hotkey.expect("combo binding saved");
    assert_eq!(combo.primary, "D");
    assert_eq!(combo.modifiers, vec!["cmd".to_string(), "shift".to_string()]);
}

#[test]
fn sync_dictation_hotkey_clears_empty_custom_binding() {
    let mut prefs = UserPreferences {
        hotkey: HotkeyBinding {
            trigger: HotkeyTrigger::RightControl,
            mode: HotkeyMode::Toggle,
            keys: None,
        },
        custom_combo_hotkey: Some(ComboBinding {
            primary: "D".into(),
            modifiers: vec!["cmd".into(), "shift".into()],
        }),
        dictation_hotkey: ShortcutBinding { primary: " ".into(), modifiers: vec!["cmd".into()] },
        ..Default::default()
    };

    sync_dictation_hotkey_legacy_fields(&mut prefs);

    assert_eq!(prefs.hotkey.trigger, HotkeyTrigger::Custom);
    assert!(prefs.custom_combo_hotkey.is_none());
}

#[test]
fn combo_hotkey_bare_shift_rejection_matches_dictation_setter() {
    let binding = ShortcutBinding { primary: "Shift".into(), modifiers: vec![] };

    assert_eq!(
        reject_bare_shift_dictation_shortcut(&binding),
        Err("Shift 单键目前只能用于翻译快捷键".into())
    );
}

#[test]
fn dictation_qa_overlap_rejects_same_modifier_only_binding() {
    let binding = ShortcutBinding { primary: "RightControl".into(), modifiers: vec![] };

    assert_eq!(
        reject_dictation_qa_hotkey_overlap(&binding, &binding),
        Err("QA 快捷键不能和听写快捷键相同".into())
    );
}

#[test]
fn dictation_qa_overlap_rejects_same_combo_binding() {
    let dictation = ShortcutBinding {
        primary: ";".into(),
        modifiers: vec!["ctrl".into(), "shift".into()],
    };
    let qa = ShortcutBinding {
        primary: ";".into(),
        modifiers: vec!["control".into(), "shift".into()],
    };

    assert_eq!(
        reject_dictation_qa_hotkey_overlap(&dictation, &qa),
        Err("QA 快捷键不能和听写快捷键相同".into())
    );
}

#[test]
fn dictation_qa_overlap_allows_distinct_bindings() {
    let dictation = ShortcutBinding { primary: "RightControl".into(), modifiers: vec![] };
    let qa = ShortcutBinding {
        primary: ";".into(),
        modifiers: vec!["ctrl".into(), "shift".into()],
    };

    assert!(reject_dictation_qa_hotkey_overlap(&dictation, &qa).is_ok());
}

#[test]
fn dictation_translation_overlap_rejects_same_modifier_only_binding() {
    let binding = ShortcutBinding { primary: "RightControl".into(), modifiers: vec![] };

    assert_eq!(
        reject_dictation_translation_hotkey_overlap(&binding, &binding),
        Err("翻译快捷键不能和听写快捷键相同".into())
    );
}

#[test]
fn dictation_translation_overlap_rejects_same_combo_binding() {
    let dictation = ShortcutBinding {
        primary: "T".into(),
        modifiers: vec!["ctrl".into(), "shift".into()],
    };
    let translation = ShortcutBinding {
        primary: "T".into(),
        modifiers: vec!["control".into(), "shift".into()],
    };

    assert_eq!(
        reject_dictation_translation_hotkey_overlap(&dictation, &translation),
        Err("翻译快捷键不能和听写快捷键相同".into())
    );
}

#[test]
fn dictation_translation_overlap_allows_distinct_bindings() {
    let dictation = ShortcutBinding { primary: "RightControl".into(), modifiers: vec![] };
    let translation = ShortcutBinding { primary: "Shift".into(), modifiers: vec![] };

    assert!(reject_dictation_translation_hotkey_overlap(&dictation, &translation).is_ok());
}

#[test]
fn persist_settings_rejects_dictation_translation_overlap() {
    let writer = FakeSettingsWriter::default();
    let binding = ShortcutBinding { primary: "RightControl".into(), modifiers: vec![] };
    let prefs = UserPreferences {
        dictation_hotkey: binding.clone(),
        translation_hotkey: binding,
        ..Default::default()
    };

    assert_eq!(
        persist_settings(&writer, prefs),
        Err("翻译快捷键不能和听写快捷键相同".into())
    );
    assert!(writer.saved.lock().unwrap().is_none());
}

#[test]
fn persist_settings_rejects_translation_switch_style_overlap() {
    let writer = FakeSettingsWriter::default();
    let binding = ShortcutBinding {
        primary: "T".into(),
        modifiers: vec!["cmd".into(), "shift".into()],
    };
    let prefs = UserPreferences {
        translation_hotkey: binding.clone(),
        switch_style_hotkey: binding,
        ..Default::default()
    };

    assert_eq!(
        persist_settings(&writer, prefs),
        Err("切换风格快捷键不能和翻译快捷键相同".into())
    );
    assert!(writer.saved.lock().unwrap().is_none());
}

#[test]
fn persist_settings_rejects_switch_style_open_app_overlap() {
    let writer = FakeSettingsWriter::default();
    let binding = ShortcutBinding {
        primary: "K".into(),
        modifiers: vec!["cmd".into(), "shift".into()],
    };
    let prefs = UserPreferences {
        switch_style_hotkey: binding.clone(),
        open_app_hotkey: binding,
        ..Default::default()
    };

    assert_eq!(
        persist_settings(&writer, prefs),
        Err("打开应用快捷键不能和切换风格快捷键相同".into())
    );
    assert!(writer.saved.lock().unwrap().is_none());
}

#[test]
fn legacy_triggers_round_trip() {
    for t in [
        HotkeyTrigger::RightOption,
        HotkeyTrigger::LeftOption,
        HotkeyTrigger::RightControl,
        HotkeyTrigger::LeftControl,
        HotkeyTrigger::RightCommand,
        HotkeyTrigger::Fn,
        HotkeyTrigger::MediaPlayPause,
    ] {
        assert_eq!(legacy_modifier_trigger(&binding_from_legacy_trigger(t)), Some(t));
    }
    assert_eq!(
        legacy_modifier_trigger(&binding_from_legacy_trigger(HotkeyTrigger::RightAlt)),
        Some(HotkeyTrigger::RightOption)
    );
    assert_eq!(
        legacy_modifier_trigger(&binding_from_legacy_trigger(HotkeyTrigger::Custom)),
        Some(HotkeyTrigger::RightOption)
    );
    let with_mod = ShortcutBinding { primary: "RightControl".into(), modifiers: vec!["cmd".into()] };
    assert_eq!(legacy_modifier_trigger(&with_mod), None);
}

#[test]
fn parse_rejects_blank_key_and_unknown_modifier() {
    let blank = ShortcutBinding { primary: "  ".into(), modifiers: vec![] };
    assert!(parse_global_hotkey(&blank).is_err());
    assert!(validate_binding(&blank).is_err());
    let odd = ShortcutBinding { primary: "K".into(), modifiers: vec!["hyper".into()] };
    assert!(parse_global_hotkey(&odd).is_err());
    let ok = ShortcutBinding { primary: " k ".into(), modifiers: vec!["Option".into()] };
    let parsed = parse_global_hotkey(&ok).unwrap();
    assert!(parsed.alt && !parsed.ctrl && !parsed.shift && !parsed.meta);
    assert_eq!(parsed.key, vec!['K']);
    let same = ShortcutBinding { primary: "K".into(), modifiers: vec!["alt".into()] };
    assert!(shortcut_bindings_overlap(&ok, &same));
    assert!(shortcut_bindings_overlap(&same, &ok));
}

#[test]
fn modifier_only_action_shortcuts_are_refused() {
    let shift = ShortcutBinding { primary: "shift".into(), modifiers: vec![] };
    assert!(reject_modifier_only_action_shortcut(&shift).is_err());
    let legacy = ShortcutBinding { primary: "Fn".into(), modifiers: vec![] };
    assert_eq!(
        reject_modifier_only_action_shortcut(&legacy),
        Err("该快捷键需要使用组合键或非修饰主键".to_string())
    );
    let combo = ShortcutBinding { primary: "K".into(), modifiers: vec!["cmd".into()] };
    assert!(reject_modifier_only_action_shortcut(&combo).is_ok());
    let bare_shift_with_mod = ShortcutBinding { primary: "Shift".into(), modifiers: vec!["cmd".into()] };
    assert!(reject_bare_shift_dictation_shortcut(&bare_shift_with_mod).is_ok());
}

fn combo(primary: &str, modifiers: &[&str]) -> ShortcutBinding {
    ShortcutBinding { primary: primary.to_string(), modifiers: modifiers.iter().map(|m| m.to_string()).collect() }
}

#[test]
fn new_dictation_shortcut_is_checked_then_mirrored() {
    let prefs = UserPreferences::default();
    let updated = apply_dictation_hotkey(prefs.clone(), combo("D", &["cmd", "shift"])).ok().unwrap();
    assert_eq!(updated.dictation_hotkey.primary, "D");
    assert_eq!(updated.hotkey.trigger, HotkeyTrigger::Custom);
    assert_eq!(updated.custom_combo_hotkey.unwrap().primary, "D");
    assert_eq!(
        apply_dictation_hotkey(prefs.clone(), combo("Shift", &[])).err(),
        Some("Shift 单键目前只能用于翻译快捷键".to_string())
    );
    assert_eq!(
        apply_dictation_hotkey(prefs.clone(), combo("", &[])).err(),
        Some("快捷键在移动端不可用".to_string())
    );
    let with_qa = UserPreferences { qa_hotkey: Some(combo(";", &["ctrl", "shift"])), ..UserPreferences::default() };
    assert_eq!(
        apply_dictation_hotkey(with_qa, combo(";", &["control", "shift"])).err(),
        Some("QA 快捷键不能和听写快捷键相同".to_string())
    );
    let legacy = apply_dictation_hotkey(prefs, combo("RightControl", &[])).ok().unwrap();
    assert_eq!(legacy.hotkey.trigger, HotkeyTrigger::RightControl);
    assert!(legacy.custom_combo_hotkey.is_none());
}

#[test]
fn qa_shortcut_can_be_set_or_cleared() {
    let prefs = UserPreferences::default();
    let set = apply_qa_hotkey(prefs.clone(), Some(combo(";", &["ctrl"]))).ok().unwrap();
    assert_eq!(set.qa_hotkey.clone().unwrap().primary, ";");
    let cleared = apply_qa_hotkey(set, None).ok().unwrap();
    assert!(cleared.qa_hotkey.is_none());
    assert_eq!(
        apply_qa_hotkey(prefs.clone(), Some(combo("RightOption", &[]))).err(),
        Some("QA 快捷键不能和听写快捷键相同".to_string())
    );
    assert_eq!(
        apply_qa_hotkey(prefs, Some(combo("shift", &[]))).err(),
        Some("Shift 单键目前只能用于翻译快捷键".to_string())
    );
}

#[test]
fn translation_shortcut_must_not_collide() {
    let prefs = UserPreferences::default();
    assert_eq!(
        apply_translation_hotkey(prefs.clone(), combo("RightOption", &[])).err(),
        Some("翻译快捷键不能和听写快捷键相同".to_string())
    );
    let with_switch = UserPreferences { switch_style_hotkey: combo("K", &["cmd"]), ..UserPreferences::default() };
    assert_eq!(
        apply_translation_hotkey(with_switch, combo("K", &["cmd"])).err(),
        Some("切换风格快捷键不能和翻译快捷键相同".to_string())
    );
    let ok = apply_translation_hotkey(prefs, combo("T", &["alt"])).ok().unwrap();
    assert_eq!(ok.translation_hotkey.primary, "T");
}

#[test]
fn action_shortcuts_need_a_real_key() {
    let prefs = UserPreferences::default();
    assert_eq!(
        apply_switch_style_hotkey(prefs.clone(), combo("RightControl", &[])).err(),
        Some("该快捷键需要使用组合键或非修饰主键".to_string())
    );
    assert_eq!(
        apply_open_app_hotkey(prefs.clone(), combo("Shift", &[])).err(),
        Some("该快捷键需要使用组合键或非修饰主键".to_string())
    );
    let switched = apply_switch_style_hotkey(prefs, combo("S", &["cmd", "alt"])).ok().unwrap();
    assert_eq!(
        apply_open_app_hotkey(switched.clone(), combo("S", &["alt", "cmd"])).err(),
        Some("打开应用快捷键不能和切换风格快捷键相同".to_string())
    );
    let opened = apply_open_app_hotkey(switched, combo("O", &["cmd", "alt"])).ok().unwrap();
    assert_eq!(opened.open_app_hotkey.primary, "O");
}

#[test]
fn validate_combo_hotkey_rejects_bare_shift() {
    let result = openless::hotkeys::validate_combo_hotkey(ComboBinding { primary: "Shift".into(), modifiers: vec![] });

    assert!(result.is_err());
}

#[test]
fn validate_combo_hotkey_accepts_a_real_combination() {
    let ok = openless::hotkeys::validate_combo_hotkey(ComboBinding {
        primary: "D".into(),
        modifiers: vec!["cmd".into(), "shift".into()],
    });
    assert!(ok.is_ok());
    let blank = openless::hotkeys::validate_combo_hotkey(ComboBinding { primary: " ".into(), modifiers: vec![] });
    assert_eq!(blank, Err("快捷键在移动端不可用".to_string()));
}

#[test]
fn accepted_shortcut_changes_keep_the_preferences_collision_free() {
    let prefs = UserPreferences::default();
    assert!(openless::hotkeys::reject_hotkey_collisions(&prefs).is_ok());
    let prefs = apply_qa_hotkey(prefs, Some(combo(";", &["ctrl", "shift"]))).ok().unwrap();
    let prefs = apply_switch_style_hotkey(prefs, combo("K", &["cmd"])).ok().unwrap();
    let prefs = apply_open_app_hotkey(prefs, combo("O", &["cmd"])).ok().unwrap();
    let prefs = apply_dictation_hotkey(prefs, combo("D", &["cmd", "shift"])).ok().unwrap();
    let prefs = apply_translation_hotkey(prefs, combo("T", &["alt"])).ok().unwrap();
    assert!(openless::hotkeys::reject_hotkey_collisions(&prefs).is_ok());
    assert!(apply_translation_hotkey(prefs, combo("K", &["command"])).is_err());
}

#[test]
fn custom_combination_becomes_the_dictation_shortcut() {
    let prefs = UserPreferences::default();
    let updated = openless::hotkeys::apply_combo_hotkey(
        prefs.clone(),
        ComboBinding { primary: "D".into(), modifiers: vec!["cmd".into(), "shift".into()] },
    )
    .ok()
    .unwrap();
    assert_eq!(updated.dictation_hotkey.primary, "D");
    assert_eq!(updated.hotkey.trigger, HotkeyTrigger::Custom);
    assert_eq!(updated.custom_combo_hotkey.unwrap().modifiers, vec!["cmd".to_string(), "shift".to_string()]);
    assert_eq!(
        openless::hotkeys::apply_combo_hotkey(prefs, ComboBinding { primary: "shift".into(), modifiers: vec![] }).err(),
        Some("Shift 单键目前只能用于翻译快捷键".to_string())
    );
}
