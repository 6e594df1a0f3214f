//! Android preference types, the overlay settings-change rule, and the status
//! reports of the accessibility and overlay bridges.
//!
//! The reports here are the ones the library gives off Android.  The decisions
//! that the Android bridge takes on its probes (is the accessibility service
//! enabled, is it running, was the overlay permission granted) are the
//! `*_from_*` functions; the probes themselves are JNI calls made by the host.

use vstd::prelude::*;
use crate::prefs::UserPreferences;

verus! {

#[derive(Debug, Clone, Copy, PartialEq, Eq, Structural)]
pub enum AndroidInsertStrategy {
    Auto,
    Ime,
    Accessibility,
    Clipboard,
}

#[derive(Debug, Clone, Copy, PartialEq, Eq, Structural)]
pub enum AndroidOverlayTrigger {
    Background,
    Keyboard,
    Always,
}

/// `Keyboard` is treated as `Background`; the other triggers are unchanged.
pub open spec fn normalized_trigger(t: AndroidOverlayTrigger) -> AndroidOverlayTrigger {
    match t {
        AndroidOverlayTrigger::Keyboard => AndroidOverlayTrigger::Background,
        other => other,
    }
}

impl AndroidOverlayTrigger {
    /// The trigger the overlay actually follows: `Keyboard` behaves as
    /// `Background`.
    pub fn normalized(self) -> (r: Self)
        ensures
            r == normalized_trigger(self),
    {
        match self {
            AndroidOverlayTrigger::Keyboard => AndroidOverlayTrigger::Background,
            trigger => trigger,
        }
    }
}

#[derive(Debug, Clone, Copy, PartialEq, Eq, Structural)]
pub enum AndroidOverlayActivationMode {
    Tap,
    LongPress,
}

#[derive(Debug, Clone, Copy, PartialEq, Eq, Structural)]
pub enum AndroidOverlayLeftSwipeAction {
    Translation,
    StylePack,
}

#[derive(Debug, Clone, Copy, PartialEq, Eq, Structural)]
pub enum AndroidOverlayCancelSwipeDirection {
    Up,
    Down,
}

#[derive(Debug, Clone, Copy, PartialEq, Eq, Structural)]
pub enum AndroidAccessibilityState {
    Enabled,
    NotEnabled,
    NotAndroid,
}

#[derive(Debug, Clone, PartialEq, Eq)]
pub struct AndroidAccessibilityStatus {
    pub state: AndroidAccessibilityState,
    pub enabled: bool,
    pub message: String,
}

pub fn default_android_insert_strategy() -> (r: AndroidInsertStrategy)
    ensures
        r == AndroidInsertStrategy::Accessibility,
{
    AndroidInsertStrategy::Accessibility
}

pub fn default_android_overlay_trigger() -> (r: AndroidOverlayTrigger)
    ensures
        r == AndroidOverlayTrigger::Background,
{
    AndroidOverlayTrigger::Background
}

pub fn default_android_overlay_activation_mode() -> (r: AndroidOverlayActivationMode)
    ensures
        r == AndroidOverlayActivationMode::Tap,
{
    AndroidOverlayActivationMode::Tap
}

pub fn default_android_overlay_left_swipe_action() -> (r: AndroidOverlayLeftSwipeAction)
    ensures
        r == AndroidOverlayLeftSwipeAction::Translation,
{
    AndroidOverlayLeftSwipeAction::Translation
}

pub fn default_android_overlay_cancel_swipe_direction() -> (r: AndroidOverlayCancelSwipeDirection)
    ensures
        r == AndroidOverlayCancelSwipeDirection::Up,
{
    AndroidOverlayCancelSwipeDirection::Up
}

pub fn default_android_overlay_size_dp() -> (r: u32)
    ensures
        r == 72,
{
    72
}

/// `Auto` and `Ime` fall back to `Accessibility`; the others are kept.
pub open spec fn normalized_insert_strategy(s: AndroidInsertStrategy) -> AndroidInsertStrategy {
    match s {
        AndroidInsertStrategy::Auto | AndroidInsertStrategy::Ime => AndroidInsertStrategy::Accessibility,
        other => other,
    }
}

/// The insertion strategy in effect for a stored preference.
pub fn normalize_android_insert_strategy(strategy: AndroidInsertStrategy) -> (r: AndroidInsertStrategy)
    ensures
        r == normalized_insert_strategy(strategy),
{
    match strategy {
        AndroidInsertStrategy::Auto | AndroidInsertStrategy::Ime => {
            AndroidInsertStrategy::Accessibility
        },
        strategy => strategy,
    }
}

/// `size` clamped to `[48, 120]`.
pub open spec fn clamped_size(size: u32) -> u32 {
    if size < 48 {
        48
    } else if size > 120 {
        120
    } else {
        size
    }
}

/// The overlay size in dp, clamped to `[48, 120]`.
pub fn normalize_android_overlay_size_dp(size_dp: u32) -> (r: u32)
    ensures
        r == clamped_size(size_dp),
        48 <= r <= 120,
{
    if size_dp < 48 {
        48
    } else if size_dp > 120 {
        120
    } else {
        size_dp
    }
}

/// What the overlay must do after a settings save.
#[derive(Debug, Clone, Copy, PartialEq, Eq, Structural)]
pub enum AndroidOverlaySettingsAction {
    Unchanged,
    RefreshLayout,
    Transition { from: AndroidOverlayTrigger, to: AndroidOverlayTrigger },
}

/// A change of the normalized trigger is a transition (it wins over a size
/// change); otherwise a change of the clamped size refreshes the layout;
/// otherwise nothing happens.
pub open spec fn overlay_settings_action(
    prev_trigger: AndroidOverlayTrigger,
    prev_size: u32,
    next_trigger: AndroidOverlayTrigger,
    next_size: u32,
) -> AndroidOverlaySettingsAction {
    if normalized_trigger(prev_trigger) != normalized_trigger(next_trigger) {
        AndroidOverlaySettingsAction::Transition {
            from: normalized_trigger(prev_trigger),
            to: normalized_trigger(next_trigger),
        }
    } else if clamped_size(prev_size) != clamped_size(next_size) {
        AndroidOverlaySettingsAction::RefreshLayout
    } else {
        AndroidOverlaySettingsAction::Unchanged
    }
}

/// Classifies a settings save by its effect on the Android overlay.
pub fn classify_android_overlay_settings_change(
    previous: &UserPreferences,
    next: &UserPreferences,
) -> (r: AndroidOverlaySettingsAction)
    ensures
        r == overlay_settings_action(
            previous.android_overlay_trigger,
            previous.android_overlay_size_dp,
            next.android_overlay_trigger,
            next.android_overlay_size_dp,
        ),
{
    let prev_trigger = previous.android_overlay_trigger.normalized();
    let next_trigger = next.android_overlay_trigger.normalized();
    let trigger_changed = prev_trigger != next_trigger;
    let size_changed = normalize_android_overlay_size_dp(previous.android_overlay_size_dp)
        != normalize_android_overlay_size_dp(next.android_overlay_size_dp);
    if trigger_changed {
        return AndroidOverlaySettingsAction::Transition { from: prev_trigger, to: next_trigger };
    }
    if size_changed {
        return AndroidOverlaySettingsAction::RefreshLayout;
    }
    AndroidOverlaySettingsAction::Unchanged
}

/// Saving the same overlay trigger and size never asks the overlay to act.
pub proof fn law_unchanged_overlay_settings_do_nothing(t: AndroidOverlayTrigger, size: u32)
    ensures
        overlay_settings_action(t, size, t, size) == AndroidOverlaySettingsAction::Unchanged,
{
}

/// A transition always goes between two different normalized triggers, and
/// neither side is `Keyboard`.
pub proof fn law_overlay_transition_is_normalized(
    pt: AndroidOverlayTrigger,
    ps: u32,
    nt: AndroidOverlayTrigger,
    ns: u32,
)
    ensures
        overlay_settings_action(pt, ps, nt, ns) matches AndroidOverlaySettingsAction::Transition {
            from,
            to,
        } ==> from != to && from != AndroidOverlayTrigger::Keyboard && to
            != AndroidOverlayTrigger::Keyboard,
{
}

#[derive(Debug, Clone, Copy, PartialEq, Eq, Structural)]
pub enum AndroidOverlayPermissionState {
    Granted,
    NotGranted,
    NotAndroid,
}

#[derive(Debug, Clone, PartialEq, Eq)]
pub struct AndroidOverlayStatus {
    pub permission: AndroidOverlayPermissionState,
    pub overlay_visible: bool,
    pub message: String,
}

#[derive(Debug, Clone)]
pub struct AndroidAccessibilityPermissionResult {
    pub launched: bool,
    pub message: String,
}

#[derive(Debug, Clone)]
pub struct AndroidOverlayPermissionResult {
    pub launched: bool,
    pub message: String,
}

/// The accessibility status reported where the Android backend is absent.
pub fn get_android_accessibility_status() -> (r: AndroidAccessibilityStatus)
    ensures
        r.state == AndroidAccessibilityState::NotAndroid,
        !r.enabled,
        r.message@ == "Android accessibility backend is only available on Android"@,
{
    broadcast use vstd::string::group_string_axioms;

    AndroidAccessibilityStatus {
        state: AndroidAccessibilityState::NotAndroid,
        enabled: false,
        message: "Android accessibility backend is only available on Android".to_string(),
    }
}

/// The report where the Android accessibility settings cannot be opened.
pub fn request_android_accessibility_permission() -> (r: AndroidAccessibilityPermissionResult)
    ensures
        !r.launched,
        r.message@ == "Android accessibility settings are only available on Android"@,
{
    broadcast use vstd::string::group_string_axioms;

    AndroidAccessibilityPermissionResult {
        launched: false,
        message: "Android accessibility settings are only available on Android".to_string(),
    }
}

/// Pasting through the accessibility service is impossible off Android.
pub fn paste_via_accessibility() -> (r: bool)
    ensures
        !r,
{
    false
}

/// The result of a paste through the accessibility service on Android: the
/// service's answer, or no paste when it could not be asked.
pub fn paste_result_from_probe(paste: Result<bool, String>) -> (r: bool)
    ensures
        paste matches Ok(b) ==> r == b,
        paste is Err ==> !r,
{
    match paste {
        Ok(b) => b,
        Err(_) => false,
    }
}

/// The first accessibility probe (is the service enabled in the settings?):
/// `Some(status)` ends the check, `None` means the service is enabled and its
/// run state must be probed next.
pub fn accessibility_status_from_enabled_probe(enabled: Result<bool, String>) -> (r: Option<
    AndroidAccessibilityStatus,
>)
    ensures
        enabled matches Ok(true) ==> r is None,
        enabled matches Ok(false) ==> r matches Some(s) && s.state
            == AndroidAccessibilityState::NotEnabled && !s.enabled && s.message@
            == "请在系统设置中启用 OpenLess 无障碍服务"@,
        enabled matches Err(e) ==> r matches Some(s) && s.state
            == AndroidAccessibilityState::NotEnabled && !s.enabled && s.message@ == e@,
{
    broadcast use vstd::string::group_string_axioms;

    match enabled {
        Ok(true) => None,
        Ok(false) => Some(
            AndroidAccessibilityStatus {
                state: AndroidAccessibilityState::NotEnabled,
                enabled: false,
                message: "请在系统设置中启用 OpenLess 无障碍服务".to_string(),
            },
        ),
        Err(error) => Some(
            AndroidAccessibilityStatus {
                state: AndroidAccessibilityState::NotEnabled,
                enabled: false,
                message: error,
            },
        ),
    }
}

/// The second accessibility probe (is the enabled service running?).
pub fn accessibility_status_from_operational_probe(operational: Result<bool, String>) -> (r:
    AndroidAccessibilityStatus)
    ensures
        operational matches Ok(true) ==> r.state == AndroidAccessibilityState::Enabled && r.enabled
            && r.message@ == "无障碍服务已启用"@,
        operational matches Ok(false) ==> r.state == AndroidAccessibilityState::NotEnabled
            && !r.enabled && r.message@
            == "无障碍服务已开启，但当前未运行或已被系统标记为故障，请重新开启 OpenLess 无障碍服务"@,
        operational matches Err(e) ==> r.state == AndroidAccessibilityState::NotEnabled
            && !r.enabled && r.message@ == e@,
{
    broadcast use vstd::string::group_string_axioms;

    match operational {
        Ok(true) => AndroidAccessibilityStatus {
            state: AndroidAccessibilityState::Enabled,
            enabled: true,
            message: "无障碍服务已启用".to_string(),
        },
        Ok(false) => AndroidAccessibilityStatus {
            state: AndroidAccessibilityState::NotEnabled,
            enabled: false,
            message: "无障碍服务已开启，但当前未运行或已被系统标记为故障，请重新开启 OpenLess 无障碍服务".to_string(),
        },
        Err(error) => AndroidAccessibilityStatus {
            state: AndroidAccessibilityState::NotEnabled,
            enabled: false,
            message: error,
        },
    }
}

/// The result of opening the Android accessibility settings.
pub fn accessibility_permission_from_launch(launch: Result<(), String>) -> (r:
    AndroidAccessibilityPermissionResult)
    ensures
        launch is Ok ==> r.launched && r.message@ == "已打开无障碍设置"@,
        launch matches Err(e) ==> !r.launched && r.message@ == e@,
{
    broadcast use vstd::string::group_string_axioms;

    match launch {
        Ok(()) => AndroidAccessibilityPermissionResult {
            launched: true,
            message: "已打开无障碍设置".to_string(),
        },
        Err(error) => AndroidAccessibilityPermissionResult { launched: false, message: error },
    }
}

/// The overlay status reported where the Android backend is absent.
pub fn get_android_overlay_status() -> (r: AndroidOverlayStatus)
    ensures
        r.permission == AndroidOverlayPermissionState::NotAndroid,
        !r.overlay_visible,
        r.message@ == "Android overlay is only available on Android"@,
{
    broadcast use vstd::string::group_string_axioms;

    AndroidOverlayStatus {
        permission: AndroidOverlayPermissionState::NotAndroid,
        overlay_visible: false,
        message: "Android overlay is only available on Android".to_string(),
    }
}

/// The Android overlay status from the permission probe (a failed probe
/// counts as not granted) and the overlay's visibility.
pub fn overlay_status_from_probe(granted: Result<bool, String>, visible: bool) -> (r:
    AndroidOverlayStatus)
    ensures
        granted == Ok::<bool, String>(true) ==> r.permission == AndroidOverlayPermissionState::Granted
            && r.message@ == "悬浮窗权限已授予"@,
        granted != Ok::<bool, String>(true) ==> r.permission
            == AndroidOverlayPermissionState::NotGranted && r.message@ == "请在系统设置中授予悬浮窗权限"@,
        r.overlay_visible == visible,
{
    broadcast use vstd::string::group_string_axioms;

    let ok = match granted {
        Ok(g) => g,
        Err(_) => false,
    };
    if ok {
        AndroidOverlayStatus {
            permission: AndroidOverlayPermissionState::Granted,
            overlay_visible: visible,
            message: "悬浮窗权限已授予".to_string(),
        }
    } else {
        AndroidOverlayStatus {
            permission: AndroidOverlayPermissionState::NotGranted,
            overlay_visible: visible,
            message: "请在系统设置中授予悬浮窗权限".to_string(),
        }
    }
}

/// The report where the overlay permission settings cannot be opened.
pub fn request_android_overlay_permission() -> (r: AndroidOverlayPermissionResult)
    ensures
        !r.launched,
        r.message@ == "Android overlay permission is only available on Android"@,
{
    broadcast use vstd::string::group_string_axioms;

    AndroidOverlayPermissionResult {
        launched: false,
        message: "Android overlay permission is only available on Android".to_string(),
    }
}

/// The result of launching the overlay permission activity.
pub fn overlay_permission_from_launch(launch: Result<(), String>) -> (r:
    AndroidOverlayPermissionResult)
    ensures
        launch is Ok ==> r.launched && r.message@ == "已打开悬浮窗权限设置"@,
        launch matches Err(e) ==> !r.launched && r.message@ == e@,
{
    broadcast use vstd::string::group_string_axioms;

    match launch {
        Ok(()) => AndroidOverlayPermissionResult {
            launched: true,
            message: "已打开悬浮窗权限设置".to_string(),
        },
        Err(error) => AndroidOverlayPermissionResult { launched: false, message: error },
    }
}

/// The error every overlay command returns off Android.
pub open spec fn overlay_unavailable() -> Seq<char> {
    "Android overlay is only available on Android"@
}

fn overlay_unavailable_err() -> (r: Result<(), String>)
    ensures
        r matches Err(e) && e@ == overlay_unavailable(),
{
    broadcast use vstd::string::group_string_axioms;

    Err("Android overlay is only available on Android".to_string())
}

/// Shows the overlay; off Android it is unavailable.
pub fn show_android_overlay() -> (r: Result<(), String>)
    ensures
        r matches Err(e) && e@ == overlay_unavailable(),
{
    overlay_unavailable_err()
}

/// Hides the overlay; off Android it is unavailable.
pub fn hide_android_overlay() -> (r: Result<(), String>)
    ensures
        r matches Err(e) && e@ == overlay_unavailable(),
{
    overlay_unavailable_err()
}

/// Refreshes the overlay when it is shown; off Android it is unavailable.
pub fn refresh_android_overlay_if_visible() -> (r: Result<(), String>)
    ensures
        r matches Err(e) && e@ == overlay_unavailable(),
{
    overlay_unavailable_err()
}

/// Re-lays out the overlay; off Android it is unavailable.
pub fn refresh_android_overlay_layout() -> (r: Result<(), String>)
    ensures
        r matches Err(e) && e@ == overlay_unavailable(),
{
    overlay_unavailable_err()
}

/// Replaces the overlay window; off Android it is unavailable.
pub fn replace_android_overlay() -> (r: Result<(), String>)
    ensures
        r matches Err(e) && e@ == overlay_unavailable(),
{
    overlay_unavailable_err()
}

} // verus!
