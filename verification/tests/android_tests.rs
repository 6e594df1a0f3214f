use openless::android::{
    accessibility_status_from_enabled_probe, accessibility_status_from_operational_probe,
    classify_android_overlay_settings_change, get_android_accessibility_status,
    get_android_overlay_status, normalize_android_insert_strategy,
    normalize_android_overlay_size_dp, overlay_status_from_probe, paste_via_accessibility,
    accessibility_permission_from_launch, hide_android_overlay, paste_result_from_probe, overlay_permission_from_launch,
    refresh_android_overlay_if_visible, refresh_android_overlay_layout, replace_android_overlay,
    request_android_accessibility_permission, request_android_overlay_permission,
    show_android_overlay, AndroidAccessibilityState, AndroidInsertStrategy,
    AndroidOverlayActivationMode, AndroidOverlayPermissionState, AndroidOverlaySettingsAction,
    AndroidOverlayTrigger,
};
use openless::prefs::UserPreferences;

fn overlay_prefs(
    trigger: AndroidOverlayTrigger,
    size_dp: u32,
    activation: AndroidOverlayActivationMode,
) -> UserPreferences {
    let mut prefs = UserPreferences::default();
    prefs.android_overlay_trigger = trigger;
    prefs.android_overlay_size_dp = size_dp;
    prefs.android_overlay_activation_mode = activation;
    prefs
}

#[test]
fn size_only_change_returns_refresh_layout() {
    let previous = overlay_prefs(AndroidOverlayTrigger::Always, 72, AndroidOverlayActivationMode::Tap);
    let next = overlay_prefs(AndroidOverlayTrigger::Always, 96, AndroidOverlayActivationMode::Tap);
    assert_eq!(
        classify_android_overlay_settings_change(&previous, &next),
        AndroidOverlaySettingsAction::RefreshLayout,
    );
}

#[test]
fn trigger_only_change_returns_transition() {
    let previous =
        overlay_prefs(AndroidOverlayTrigger::Background, 72, AndroidOverlayActivationMode::Tap);
    let next = overlay_prefs(AndroidOverlayTrigger::Always, 72, AndroidOverlayActivationMode::Tap);
    assert_eq!(
        classify_android_overlay_settings_change(&previous, &next),
        AndroidOverlaySettingsAction::Transition {
            from: AndroidOverlayTrigger::Background,
            to: AndroidOverlayTrigger::Always,
        },
    );
}

#[test]
fn trigger_and_size_change_returns_transition_only() {
    let previous =
        overlay_prefs(AndroidOverlayTrigger::Background, 72, AndroidOverlayActivationMode::Tap);
    let next = overlay_prefs(AndroidOverlayTrigger::Always, 96, AndroidOverlayActivationMode::Tap);
    assert_eq!(
        classify_android_overlay_settings_change(&previous, &next),
        AndroidOverlaySettingsAction::Transition {
            from: AndroidOverlayTrigger::Background,
            to: AndroidOverlayTrigger::Always,
        },
    );
}

#[test]
fn activation_only_change_returns_none() {
    let previous = overlay_prefs(AndroidOverlayTrigger::Always, 72, AndroidOverlayActivationMode::Tap);
    let next =
        overlay_prefs(AndroidOverlayTrigger::Always, 72, AndroidOverlayActivationMode::LongPress);
    assert_eq!(
        classify_android_overlay_settings_change(&previous, &next),
        AndroidOverlaySettingsAction::Unchanged,
    );
}

#[test]
fn out_of_bounds_size_200_to_120_returns_none_after_normalize() {
    let previous = overlay_prefs(AndroidOverlayTrigger::Always, 200, AndroidOverlayActivationMode::Tap);
    let next = overlay_prefs(AndroidOverlayTrigger::Always, 120, AndroidOverlayActivationMode::Tap);
    assert_eq!(
        classify_android_overlay_settings_change(&previous, &next),
        AndroidOverlaySettingsAction::Unchanged,
    );
}

#[test]
fn out_of_bounds_size_below_min_normalizes_to_same_returns_none() {
    let previous = overlay_prefs(AndroidOverlayTrigger::Always, 30, AndroidOverlayActivationMode::Tap);
    let next = overlay_prefs(AndroidOverlayTrigger::Always, 48, AndroidOverlayActivationMode::Tap);
    assert_eq!(
        classify_android_overlay_settings_change(&previous, &next),
        AndroidOverlaySettingsAction::Unchanged,
    );
}

#[test]
fn identical_normalized_size_returns_none() {
    let previous = overlay_prefs(AndroidOverlayTrigger::Always, 72, AndroidOverlayActivationMode::Tap);
    let next = overlay_prefs(AndroidOverlayTrigger::Always, 72, AndroidOverlayActivationMode::Tap);
    assert_eq!(
        classify_android_overlay_settings_change(&previous, &next),
        AndroidOverlaySettingsAction::Unchanged,
    );
}

#[test]
fn keyboard_trigger_normalizes_to_background_for_transition() {
    let previous =
        overlay_prefs(AndroidOverlayTrigger::Keyboard, 72, AndroidOverlayActivationMode::Tap);
    let next = overlay_prefs(AndroidOverlayTrigger::Always, 72, AndroidOverlayActivationMode::Tap);
    assert_eq!(
        classify_android_overlay_settings_change(&previous, &next),
        AndroidOverlaySettingsAction::Transition {
            from: AndroidOverlayTrigger::Background,
            to: AndroidOverlayTrigger::Always,
        },
    );
}

#[test]
fn keyboard_and_background_are_the_same_trigger() {
    let previous =
        overlay_prefs(AndroidOverlayTrigger::Keyboard, 72, AndroidOverlayActivationMode::Tap);
    let next =
        overlay_prefs(AndroidOverlayTrigger::Background, 72, AndroidOverlayActivationMode::Tap);
    assert_eq!(
        classify_android_overlay_settings_change(&previous, &next),
        AndroidOverlaySettingsAction::Unchanged,
    );
    assert_eq!(AndroidOverlayTrigger::Keyboard.normalized(), AndroidOverlayTrigger::Background);
    assert_eq!(AndroidOverlayTrigger::Always.normalized(), AndroidOverlayTrigger::Always);
}

#[test]
fn sizes_and_strategies_normalize() {
    assert_eq!(normalize_android_overlay_size_dp(10), 48);
    assert_eq!(normalize_android_overlay_size_dp(500), 120);
    assert_eq!(normalize_android_overlay_size_dp(72), 72);
    assert_eq!(
        normalize_android_insert_strategy(AndroidInsertStrategy::Auto),
        AndroidInsertStrategy::Accessibility
    );
    assert_eq!(
        normalize_android_insert_strategy(AndroidInsertStrategy::Ime),
        AndroidInsertStrategy::Accessibility
    );
    assert_eq!(
        normalize_android_insert_strategy(AndroidInsertStrategy::Clipboard),
        AndroidInsertStrategy::Clipboard
    );
}

#[test]
fn off_android_reports() {
    let s = get_android_accessibility_status();
    assert_eq!(s.state, AndroidAccessibilityState::NotAndroid);
    assert!(!s.enabled);
    let o = get_android_overlay_status();
    assert_eq!(o.permission, AndroidOverlayPermissionState::NotAndroid);
    assert!(!paste_via_accessibility());
    assert_eq!(
        show_android_overlay(),
        Err("Android overlay is only available on Android".to_string())
    );
}

#[test]
fn accessibility_probe_decisions() {
    assert!(accessibility_status_from_enabled_probe(Ok(true)).is_none());
    let off = accessibility_status_from_enabled_probe(Ok(false)).unwrap();
    assert_eq!(off.state, AndroidAccessibilityState::NotEnabled);
    let err = accessibility_status_from_enabled_probe(Err("jni".to_string())).unwrap();
    assert_eq!(err.message, "jni");
    let on = accessibility_status_from_operational_probe(Ok(true));
    assert!(on.enabled);
    assert_eq!(on.state, AndroidAccessibilityState::Enabled);
    let stale = accessibility_status_from_operational_probe(Ok(false));
    assert!(!stale.enabled);
    let granted = overlay_status_from_probe(Ok(true), true);
    assert_eq!(granted.permission, AndroidOverlayPermissionState::Granted);
    assert!(granted.overlay_visible);
    let failed = overlay_status_from_probe(Err("x".to_string()), false);
    assert_eq!(failed.permission, AndroidOverlayPermissionState::NotGranted);
}

#[test]
fn permission_requests_off_android_and_after_a_launch() {
    let acc = request_android_accessibility_permission();
    assert!(!acc.launched);
    assert_eq!(acc.message, "Android accessibility settings are only available on Android");
    let overlay = request_android_overlay_permission();
    assert!(!overlay.launched);
    assert_eq!(overlay.message, "Android overlay permission is only available on Android");
    let opened = accessibility_permission_from_launch(Ok(()));
    assert!(opened.launched);
    assert_eq!(opened.message, "已打开无障碍设置");
    let failed = overlay_permission_from_launch(Err("no activity".to_string()));
    assert!(!failed.launched);
    assert_eq!(failed.message, "no activity");
    assert_eq!(overlay_permission_from_launch(Ok(())).message, "已打开悬浮窗权限设置");
}

#[test]
fn overlay_commands_are_unavailable_off_android() {
    let expected = Err("Android overlay is only available on Android".to_string());
    assert_eq!(hide_android_overlay(), expected);
    assert_eq!(refresh_android_overlay_if_visible(), expected);
    assert_eq!(refresh_android_overlay_layout(), expected);
    assert_eq!(replace_android_overlay(), expected);
}

#[test]
fn unchanged_overlay_settings_do_nothing_example() {
    let prefs = overlay_prefs(AndroidOverlayTrigger::Background, 72, AndroidOverlayActivationMode::Tap);
    assert_eq!(classify_android_overlay_settings_change(&prefs, &prefs), AndroidOverlaySettingsAction::Unchanged);
}

#[test]
fn accessibility_paste_reports_the_service_answer() {
    assert!(paste_result_from_probe(Ok(true)));
    assert!(!paste_result_from_probe(Ok(false)));
    assert!(!paste_result_from_probe(Err("no JVM".to_string())));
}
