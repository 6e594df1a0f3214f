//! The user preferences that the verified rules read, and their defaults.

use vstd::prelude::*;
use crate::android::{
    AndroidInsertStrategy, AndroidOverlayActivationMode, AndroidOverlayCancelSwipeDirection,
    AndroidOverlayLeftSwipeAction, AndroidOverlayTrigger,
};

verus! {

/// The legacy single-key dictation triggers.
#[derive(Debug, Clone, Copy, PartialEq, Eq, Structural)]
pub enum HotkeyTrigger {
    RightOption,
    LeftOption,
    RightControl,
    LeftControl,
    RightCommand,
    RightAlt,
    Fn,
    MediaPlayPause,
    Custom,
}

/// Whether the dictation key toggles recording or must be held.
#[derive(Debug, Clone, Copy, PartialEq, Eq, Structural)]
pub enum HotkeyMode {
    Toggle,
    Hold,
}

/// The legacy dictation hotkey settings.
#[derive(Debug, Clone, PartialEq, Eq)]
pub struct HotkeyBinding {
    pub trigger: HotkeyTrigger,
    pub mode: HotkeyMode,
    pub keys: Option<Vec<String>>,
}

impl Default for HotkeyBinding {
    fn default() -> (r: Self)
        ensures
            r.trigger == HotkeyTrigger::RightOption,
            r.mode == HotkeyMode::Toggle,
            r.keys is None,
    {
        HotkeyBinding { trigger: HotkeyTrigger::RightOption, mode: HotkeyMode::Toggle, keys: None }
    }
}

/// A keyboard shortcut: a primary key plus modifier names.
#[derive(Debug, Clone, PartialEq, Eq)]
pub struct ShortcutBinding {
    pub primary: String,
    pub modifiers: Vec<String>,
}

/// The custom dictation combination as stored in the preferences.
#[derive(Debug, Clone, PartialEq, Eq)]
pub struct ComboBinding {
    pub primary: String,
    pub modifiers: Vec<String>,
}

/// The preferences that the verified rules read or write.
#[derive(Debug, Clone)]
pub struct UserPreferences {
    pub hotkey: HotkeyBinding,
    pub dictation_hotkey: ShortcutBinding,
    pub custom_combo_hotkey: Option<ComboBinding>,
    pub qa_hotkey: Option<ShortcutBinding>,
    pub translation_hotkey: ShortcutBinding,
    pub switch_style_hotkey: ShortcutBinding,
    pub open_app_hotkey: ShortcutBinding,
    pub translate_enabled: bool,
    pub android_insert_strategy: AndroidInsertStrategy,
    pub android_overlay_trigger: AndroidOverlayTrigger,
    pub android_overlay_activation_mode: AndroidOverlayActivationMode,
    pub android_overlay_left_swipe_action: AndroidOverlayLeftSwipeAction,
    pub android_overlay_cancel_swipe_direction: AndroidOverlayCancelSwipeDirection,
    pub android_overlay_size_dp: u32,
    pub foundry_local_asr_model: String,
    pub foundry_local_asr_language_hint: String,
    pub local_asr_active_model: String,
    pub local_asr_mirror: String,
    pub local_asr_keep_loaded_secs: u32,
}

/// A shortcut with the given primary key and no modifiers.
pub fn bare_binding(primary: &str) -> (r: ShortcutBinding)
    ensures
        r.primary@ == primary@,
        r.modifiers@.len() == 0,
{
    broadcast use vstd::string::group_string_axioms;

    ShortcutBinding { primary: primary.to_string(), modifiers: Vec::new() }
}

impl Default for UserPreferences {
    fn default() -> (r: Self)
        ensures
            r.hotkey.trigger == HotkeyTrigger::RightOption,
            r.hotkey.mode == HotkeyMode::Toggle,
            r.dictation_hotkey.primary@ == "RightOption"@,
            r.dictation_hotkey.modifiers@.len() == 0,
            r.custom_combo_hotkey is None,
            r.qa_hotkey is None,
            r.translation_hotkey.primary@ == "Shift"@,
            r.translation_hotkey.modifiers@.len() == 0,
            r.switch_style_hotkey.primary@ == ""@,
            r.open_app_hotkey.primary@ == ""@,
            r.translate_enabled,
            r.android_insert_strategy == AndroidInsertStrategy::Accessibility,
            r.android_overlay_trigger == AndroidOverlayTrigger::Background,
            r.android_overlay_activation_mode == AndroidOverlayActivationMode::Tap,
            r.android_overlay_left_swipe_action == AndroidOverlayLeftSwipeAction::Translation,
            r.android_overlay_cancel_swipe_direction == AndroidOverlayCancelSwipeDirection::Up,
            r.android_overlay_size_dp == 72,
            r.foundry_local_asr_model@ == crate::commands::DEFAULT_FOUNDRY_MODEL_ALIAS@,
            r.foundry_local_asr_language_hint@ == ""@,
    {
        broadcast use vstd::string::group_string_axioms;

        UserPreferences {
            hotkey: HotkeyBinding::default(),
            dictation_hotkey: bare_binding("RightOption"),
            custom_combo_hotkey: None,
            qa_hotkey: None,
            translation_hotkey: bare_binding("Shift"),
            switch_style_hotkey: bare_binding(""),
            open_app_hotkey: bare_binding(""),
            translate_enabled: true,
            android_insert_strategy: crate::android::default_android_insert_strategy(),
            android_overlay_trigger: crate::android::default_android_overlay_trigger(),
            android_overlay_activation_mode: crate::android::default_android_overlay_activation_mode(),
            android_overlay_left_swipe_action:
                crate::android::default_android_overlay_left_swipe_action(),
            android_overlay_cancel_swipe_direction:
                crate::android::default_android_overlay_cancel_swipe_direction(),
            android_overlay_size_dp: crate::android::default_android_overlay_size_dp(),
            foundry_local_asr_model: crate::commands::DEFAULT_FOUNDRY_MODEL_ALIAS.to_string(),
            foundry_local_asr_language_hint: "".to_string(),
            local_asr_active_model: "".to_string(),
            local_asr_mirror: "".to_string(),
            local_asr_keep_loaded_secs: 0,
        }
    }
}

} // verus!
