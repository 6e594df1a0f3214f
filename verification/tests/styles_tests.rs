use openless::styles::{
    add_custom_mode, custom_mode_exists, delete_custom_mode, set_app_mode_overrides, set_default_polish_mode,
    set_style_enabled, update_custom_mode, AppModeOverride, CustomMode, PolishMode, StyleSettings,
};

fn settings() -> StyleSettings {
    StyleSettings {
        default_mode: PolishMode::Light,
        enabled_modes: vec![PolishMode::Raw, PolishMode::Light],
        custom_modes: vec![CustomMode { id: "mail".to_string(), name: "Mail".to_string(), prompt: "p".to_string() }],
        app_mode_overrides: vec![],
    }
}

#[test]
fn custom_modes_are_added_under_a_clean_unique_id() {
    let s = add_custom_mode(settings(), "  memo ", "Memo".to_string(), "q".to_string()).unwrap();
    assert_eq!(s.custom_modes.len(), 2);
    assert_eq!(s.custom_modes[1].id, "memo");
    assert!(custom_mode_exists(&s.custom_modes, "memo"));
    assert_eq!(
        add_custom_mode(settings(), "  ", String::new(), String::new()).err(),
        Some("custom mode id is empty".to_string())
    );
    assert_eq!(
        add_custom_mode(settings(), "a:b", String::new(), String::new()).err(),
        Some("custom mode id cannot contain ':'".to_string())
    );
    assert_eq!(
        add_custom_mode(settings(), "mail", String::new(), String::new()).err(),
        Some("custom mode id 'mail' already exists".to_string())
    );
}

#[test]
fn custom_modes_are_updated_in_place() {
    let s = update_custom_mode(settings(), "mail", "Email".to_string(), "new".to_string()).unwrap();
    assert_eq!(s.custom_modes[0], CustomMode { id: "mail".to_string(), name: "Email".to_string(), prompt: "new".to_string() });
    assert_eq!(
        update_custom_mode(settings(), "x", String::new(), String::new()).err(),
        Some("custom mode id 'x' not found".to_string())
    );
}

#[test]
fn deleting_a_custom_mode_cleans_up_its_references() {
    let mut base = settings();
    base.default_mode = PolishMode::Custom("mail".to_string());
    base.enabled_modes.push(PolishMode::Custom("mail".to_string()));
    let s = delete_custom_mode(base, "mail").unwrap();
    assert!(s.custom_modes.is_empty());
    assert_eq!(s.default_mode, PolishMode::Light);
    assert_eq!(s.enabled_modes, vec![PolishMode::Raw, PolishMode::Light]);
    assert_eq!(delete_custom_mode(settings(), "x").err(), Some("custom mode id 'x' not found".to_string()));
}

#[test]
fn styles_are_enabled_once_and_disabled_everywhere() {
    let s = set_style_enabled(settings(), PolishMode::Formal, true).unwrap();
    assert_eq!(s.enabled_modes, vec![PolishMode::Raw, PolishMode::Light, PolishMode::Formal]);
    let again = set_style_enabled(s, PolishMode::Formal, true).unwrap();
    assert_eq!(again.enabled_modes.len(), 3);
    let off = set_style_enabled(again, PolishMode::Light, false).unwrap();
    assert_eq!(off.enabled_modes, vec![PolishMode::Raw, PolishMode::Formal]);
    assert_eq!(
        set_style_enabled(settings(), PolishMode::Custom("x".to_string()), true).err(),
        Some("custom mode id 'x' not found".to_string())
    );
    assert!(set_style_enabled(settings(), PolishMode::Custom("x".to_string()), false).is_ok());
}

#[test]
fn default_mode_and_overrides_must_name_known_modes() {
    let s = set_default_polish_mode(settings(), PolishMode::Custom("mail".to_string())).unwrap();
    assert_eq!(s.default_mode, PolishMode::Custom("mail".to_string()));
    assert_eq!(
        set_default_polish_mode(settings(), PolishMode::Custom("zz".to_string())).err(),
        Some("custom mode id 'zz' not found".to_string())
    );
    let good = vec![AppModeOverride { app_pattern: "Mail".to_string(), mode: PolishMode::Custom("mail".to_string()) }];
    assert_eq!(set_app_mode_overrides(settings(), good.clone()).unwrap().app_mode_overrides, good);
    let bad = vec![
        AppModeOverride { app_pattern: "A".to_string(), mode: PolishMode::Formal },
        AppModeOverride { app_pattern: "B".to_string(), mode: PolishMode::Custom("nope".to_string()) },
    ];
    assert_eq!(
        set_app_mode_overrides(settings(), bad).err(),
        Some("app_mode_override references unknown custom mode id 'nope'".to_string())
    );
}
