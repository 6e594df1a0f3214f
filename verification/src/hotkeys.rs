//! Shortcut parsing, the legacy single-key triggers, and the rules that keep
//! the dictation, QA, translation, style-switch and open-app shortcuts apart.

use vstd::prelude::*;
use crate::prefs::{ComboBinding, HotkeyBinding, HotkeyTrigger, ShortcutBinding, UserPreferences};
use crate::text::{
    ascii_lowercase, ascii_lowercase_exec, ascii_uppercase, ascii_uppercase_exec, chars_eq, chars_of,
    eq_ignore_ascii_case, eq_ignore_ascii_case_exec, string_from_chars, trim, trim_chars, trim_str,
};

verus! {

impl View for ShortcutBinding {
    type V = (Seq<char>, Seq<Seq<char>>);

    open spec fn view(&self) -> (Seq<char>, Seq<Seq<char>>) {
        (self.primary@, self.modifiers@.map_values(|m: String| m@))
    }
}

/// Why a shortcut cannot be registered.
#[derive(Debug)]
pub enum ShortcutBindingError {
    Unavailable,
}

impl ShortcutBindingError {
    /// The user-facing message.
    pub fn message(&self) -> (r: String)
        ensures
            r@ == "快捷键在移动端不可用"@,
    {
        broadcast use vstd::string::group_string_axioms;

        "快捷键在移动端不可用".to_string()
    }
}

/// A parsed shortcut: which modifiers are held and the (upper-cased) key.
#[derive(Debug)]
pub struct ParsedHotkey {
    pub ctrl: bool,
    pub shift: bool,
    pub alt: bool,
    pub meta: bool,
    pub key: Vec<char>,
}

impl View for ParsedHotkey {
    type V = (bool, bool, bool, bool, Seq<char>);

    open spec fn view(&self) -> (bool, bool, bool, bool, Seq<char>) {
        (self.ctrl, self.shift, self.alt, self.meta, self.key@)
    }
}

/// The modifier a name stands for, case-insensitively and ignoring
/// surrounding whitespace: 0 = Control, 1 = Shift, 2 = Alt/Option,
/// 3 = Command/Super.
pub open spec fn modifier_kind(name: Seq<char>) -> Option<int> {
    let n = ascii_lowercase(trim(name));
    if n == "ctrl"@ || n == "control"@ {
        Some(0)
    } else if n == "shift"@ {
        Some(1)
    } else if n == "alt"@ || n == "option"@ || n == "opt"@ {
        Some(2)
    } else if n == "cmd"@ || n == "command"@ || n == "super"@ || n == "meta"@ || n == "win"@ {
        Some(3)
    } else {
        None
    }
}

/// Whether some modifier name denotes modifier `k`.
pub open spec fn has_modifier(mods: Seq<Seq<char>>, k: int) -> bool {
    exists|i: int| 0 <= i < mods.len() && modifier_kind(#[trigger] mods[i]) == Some(k)
}

/// The parse of a shortcut: `None` when the key is blank or a modifier name is
/// unknown; otherwise the set of modifiers and the upper-cased trimmed key.
pub open spec fn parsed_hotkey(b: (Seq<char>, Seq<Seq<char>>)) -> Option<(bool, bool, bool, bool, Seq<char>)> {
    if trim(b.0).len() == 0 || exists|i: int| 0 <= i < b.1.len() && #[trigger] modifier_kind(b.1[i]) is None {
        None
    } else {
        Some((has_modifier(b.1, 0), has_modifier(b.1, 1), has_modifier(b.1, 2), has_modifier(b.1, 3), ascii_uppercase(trim(b.0))))
    }
}

fn modifier_kind_exec(name: &str) -> (r: Option<u8>)
    ensures
        r matches Some(k) ==> modifier_kind(name@) == Some(k as int),
        r is None ==> modifier_kind(name@) is None,
{
    let t = trim_str(name);
    let n = ascii_lowercase_exec(&t);
    if chars_eq(&n, &chars_of("ctrl")) || chars_eq(&n, &chars_of("control")) {
        Some(0)
    } else if chars_eq(&n, &chars_of("shift")) {
        Some(1)
    } else if chars_eq(&n, &chars_of("alt")) || chars_eq(&n, &chars_of("option")) || chars_eq(
        &n,
        &chars_of("opt"),
    ) {
        Some(2)
    } else if chars_eq(&n, &chars_of("cmd")) || chars_eq(&n, &chars_of("command")) || chars_eq(
        &n,
        &chars_of("super"),
    ) || chars_eq(&n, &chars_of("meta")) || chars_eq(&n, &chars_of("win")) {
        Some(3)
    } else {
        None
    }
}

/// Parses a shortcut into its modifier set and key.  Modifier names are
/// matched case-insensitively (`ctrl`/`control`, `shift`, `alt`/`option`/`opt`,
/// `cmd`/`command`/`super`/`meta`/`win`) and the key case-insensitively, so
/// two spellings of one shortcut parse alike.
pub fn parse_global_hotkey(binding: &ShortcutBinding) -> (r: Result<ParsedHotkey, ShortcutBindingError>)
    ensures
        r is Ok <==> parsed_hotkey(binding@) is Some,
        r matches Ok(p) ==> parsed_hotkey(binding@) == Some(p@),
{
    let key = trim_str(binding.primary.as_str());
    if key.len() == 0 {
        return Err(ShortcutBindingError::Unavailable);
    }
    let ghost mods = binding@.1;
    let mut ctrl = false;
    let mut shift = false;
    let mut alt = false;
    let mut meta = false;
    let mut i: usize = 0;
    while i < binding.modifiers.len()
        invariant
            i <= binding.modifiers@.len(),
            mods == binding@.1,
            forall|k: int| 0 <= k < i ==> #[trigger] modifier_kind(mods[k]) is Some,
            ctrl == exists|k: int| 0 <= k < i && modifier_kind(#[trigger] mods[k]) == Some(0int),
            shift == exists|k: int| 0 <= k < i && modifier_kind(#[trigger] mods[k]) == Some(1int),
            alt == exists|k: int| 0 <= k < i && modifier_kind(#[trigger] mods[k]) == Some(2int),
            meta == exists|k: int| 0 <= k < i && modifier_kind(#[trigger] mods[k]) == Some(3int),
        decreases binding.modifiers@.len() - i,
    {
        assert(mods[i as int] == binding.modifiers@[i as int]@);
        match modifier_kind_exec(binding.modifiers[i].as_str()) {
            None => {
                assert(modifier_kind(mods[i as int]) is None);
                return Err(ShortcutBindingError::Unavailable);
            },
            Some(k) => {
                if k == 0 {
                    ctrl = true;
                } else if k == 1 {
                    shift = true;
                } else if k == 2 {
                    alt = true;
                } else {
                    meta = true;
                }
            },
        }
        i += 1;
    }
    Ok(ParsedHotkey { ctrl, shift, alt, meta, key: ascii_uppercase_exec(&key) })
}

/// A shortcut can be registered exactly when it parses.
pub fn validate_binding(binding: &ShortcutBinding) -> (r: Result<(), ShortcutBindingError>)
    ensures
        r is Ok <==> parsed_hotkey(binding@) is Some,
{
    match parse_global_hotkey(binding) {
        Ok(_) => Ok(()),
        Err(e) => Err(e),
    }
}

/// The legacy single-key trigger a key name stands for.
pub open spec fn trigger_for_name(name: Seq<char>) -> Option<HotkeyTrigger> {
    if name == "RightOption"@ {
        Some(HotkeyTrigger::RightOption)
    } else if name == "LeftOption"@ {
        Some(HotkeyTrigger::LeftOption)
    } else if name == "RightControl"@ {
        Some(HotkeyTrigger::RightControl)
    } else if name == "LeftControl"@ {
        Some(HotkeyTrigger::LeftControl)
    } else if name == "RightCommand"@ {
        Some(HotkeyTrigger::RightCommand)
    } else if name == "Fn"@ {
        Some(HotkeyTrigger::Fn)
    } else if name == "MediaPlayPause"@ {
        Some(HotkeyTrigger::MediaPlayPause)
    } else {
        None
    }
}

/// A shortcut that is a single modifier key with no other modifiers maps to
/// its legacy trigger.
pub open spec fn legacy_trigger(b: (Seq<char>, Seq<Seq<char>>)) -> Option<HotkeyTrigger> {
    if b.1.len() == 0 {
        trigger_for_name(b.0)
    } else {
        None
    }
}

/// The legacy single-key trigger of a shortcut, if it is one.
pub fn legacy_modifier_trigger(binding: &ShortcutBinding) -> (r: Option<HotkeyTrigger>)
    ensures
        r == legacy_trigger(binding@),
{
    if binding.modifiers.len() > 0 {
        return None;
    }
    let p = chars_of(binding.primary.as_str());
    if chars_eq(&p, &chars_of("RightOption")) {
        Some(HotkeyTrigger::RightOption)
    } else if chars_eq(&p, &chars_of("LeftOption")) {
        Some(HotkeyTrigger::LeftOption)
    } else if chars_eq(&p, &chars_of("RightControl")) {
        Some(HotkeyTrigger::RightControl)
    } else if chars_eq(&p, &chars_of("LeftControl")) {
        Some(HotkeyTrigger::LeftControl)
    } else if chars_eq(&p, &chars_of("RightCommand")) {
        Some(HotkeyTrigger::RightCommand)
    } else if chars_eq(&p, &chars_of("Fn")) {
        Some(HotkeyTrigger::Fn)
    } else if chars_eq(&p, &chars_of("MediaPlayPause")) {
        Some(HotkeyTrigger::MediaPlayPause)
    } else {
        None
    }
}

/// The key name stored for a legacy trigger; `RightAlt` and `Custom` are
/// stored as `RightOption`.
pub open spec fn trigger_name(t: HotkeyTrigger) -> Seq<char> {
    match t {
        HotkeyTrigger::RightOption | HotkeyTrigger::RightAlt => "RightOption"@,
        HotkeyTrigger::LeftOption => "LeftOption"@,
        HotkeyTrigger::RightControl => "RightControl"@,
        HotkeyTrigger::LeftControl => "LeftControl"@,
        HotkeyTrigger::RightCommand => "RightCommand"@,
        HotkeyTrigger::Fn => "Fn"@,
        HotkeyTrigger::MediaPlayPause => "MediaPlayPause"@,
        HotkeyTrigger::Custom => "RightOption"@,
    }
}

/// The shortcut that stands for a legacy trigger.
pub fn binding_from_legacy_trigger(trigger: HotkeyTrigger) -> (r: ShortcutBinding)
    ensures
        r.primary@ == trigger_name(trigger),
        r.modifiers@.len() == 0,
{
    broadcast use vstd::string::group_string_axioms;

    let primary = match trigger {
        HotkeyTrigger::RightOption | HotkeyTrigger::RightAlt => "RightOption",
        HotkeyTrigger::LeftOption => "LeftOption",
        HotkeyTrigger::RightControl => "RightControl",
        HotkeyTrigger::LeftControl => "LeftControl",
        HotkeyTrigger::RightCommand => "RightCommand",
        HotkeyTrigger::Fn => "Fn",
        HotkeyTrigger::MediaPlayPause => "MediaPlayPause",
        HotkeyTrigger::Custom => "RightOption",
    };
    ShortcutBinding { primary: primary.to_string(), modifiers: Vec::new() }
}

/// Mapping a trigger to its shortcut and back gives the trigger again, except
/// that `RightAlt` and `Custom` come back as `RightOption`.
pub proof fn law_legacy_trigger_round_trip(t: HotkeyTrigger)
    ensures
        trigger_for_name(trigger_name(t)) == Some(
            match t {
                HotkeyTrigger::RightAlt | HotkeyTrigger::Custom => HotkeyTrigger::RightOption,
                other => other,
            },
        ),
{
    reveal_strlit("RightOption");
    reveal_strlit("LeftOption");
    reveal_strlit("RightControl");
    reveal_strlit("LeftControl");
    reveal_strlit("RightCommand");
    reveal_strlit("Fn");
    reveal_strlit("MediaPlayPause");
    assert("RightOption"@.len() == 11);
    assert("LeftOption"@.len() == 10);
    assert("RightControl"@.len() == 12);
    assert("LeftControl"@.len() == 11);
    assert("RightCommand"@.len() == 12);
    assert("Fn"@.len() == 2);
    assert("MediaPlayPause"@.len() == 14);
    assert("RightOption"@[0] != "LeftControl"@[0]);
    assert("RightControl"@[7] != "RightCommand"@[7]);
}

/// Two shortcuts overlap when both are the same legacy trigger, or when
/// neither is a legacy trigger and both parse to the same shortcut.
pub open spec fn bindings_overlap(l: (Seq<char>, Seq<Seq<char>>), r: (Seq<char>, Seq<Seq<char>>)) -> bool {
    match (legacy_trigger(l), legacy_trigger(r)) {
        (Some(a), Some(b)) => a == b,
        (Some(_), None) => false,
        (None, Some(_)) => false,
        (None, None) => match (parsed_hotkey(l), parsed_hotkey(r)) {
            (Some(x), Some(y)) => x == y,
            _ => false,
        },
    }
}

/// Overlap is symmetric.
pub proof fn law_overlap_symmetric(l: (Seq<char>, Seq<Seq<char>>), r: (Seq<char>, Seq<Seq<char>>))
    ensures
        bindings_overlap(l, r) == bindings_overlap(r, l),
{
}

/// A shortcut that is a legacy trigger or parses overlaps with itself.
pub proof fn law_overlap_reflexive(b: (Seq<char>, Seq<Seq<char>>))
    requires
        legacy_trigger(b) is Some || parsed_hotkey(b) is Some,
    ensures
        bindings_overlap(b, b),
{
}

/// Whether two shortcuts would fire on the same keys.
pub fn shortcut_bindings_overlap(left: &ShortcutBinding, right: &ShortcutBinding) -> (r: bool)
    ensures
        r == bindings_overlap(left@, right@),
{
    let left_legacy = legacy_modifier_trigger(left);
    let right_legacy = legacy_modifier_trigger(right);
    match (left_legacy, right_legacy) {
        (Some(a), Some(b)) => a == b,
        (Some(_), None) => false,
        (None, Some(_)) => false,
        (None, None) => {
            let l = match parse_global_hotkey(left) {
                Ok(l) => l,
                Err(_) => {
                    return false;
                },
            };
            let r = match parse_global_hotkey(right) {
                Ok(r) => r,
                Err(_) => {
                    return false;
                },
            };
            l.ctrl == r.ctrl && l.shift == r.shift && l.alt == r.alt && l.meta == r.meta
                && chars_eq(&l.key, &r.key)
        },
    }
}

/// `Err(message)` when the shortcuts overlap, `Ok(())` otherwise.
pub fn reject_hotkey_overlap(left: &ShortcutBinding, right: &ShortcutBinding, message: &'static str) -> (r:
    Result<(), String>)
    ensures
        bindings_overlap(left@, right@) ==> (r matches Err(e) && e@ == message@),
        !bindings_overlap(left@, right@) ==> r is Ok,
{
    broadcast use vstd::string::group_string_axioms;

    if shortcut_bindings_overlap(left, right) {
        return Err(message.to_string());
    }
    Ok(())
}

pub open spec fn msg_dictation_qa() -> Seq<char> {
    "QA 快捷键不能和听写快捷键相同"@
}

pub open spec fn msg_dictation_translation() -> Seq<char> {
    "翻译快捷键不能和听写快捷键相同"@
}

pub open spec fn msg_dictation_switch_style() -> Seq<char> {
    "切换风格快捷键不能和听写快捷键相同"@
}

pub open spec fn msg_dictation_open_app() -> Seq<char> {
    "打开应用快捷键不能和听写快捷键相同"@
}

pub open spec fn msg_qa_translation() -> Seq<char> {
    "翻译快捷键不能和 QA 快捷键相同"@
}

pub open spec fn msg_qa_switch_style() -> Seq<char> {
    "切换风格快捷键不能和 QA 快捷键相同"@
}

pub open spec fn msg_qa_open_app() -> Seq<char> {
    "打开应用快捷键不能和 QA 快捷键相同"@
}

pub open spec fn msg_translation_switch_style() -> Seq<char> {
    "切换风格快捷键不能和翻译快捷键相同"@
}

pub open spec fn msg_translation_open_app() -> Seq<char> {
    "打开应用快捷键不能和翻译快捷键相同"@
}

pub open spec fn msg_switch_style_open_app() -> Seq<char> {
    "打开应用快捷键不能和切换风格快捷键相同"@
}

/// The QA shortcut may not overlap the dictation shortcut.
pub fn reject_dictation_qa_hotkey_overlap(dictation: &ShortcutBinding, qa: &ShortcutBinding) -> (r:
    Result<(), String>)
    ensures
        bindings_overlap(dictation@, qa@) ==> (r matches Err(e) && e@ == msg_dictation_qa()),
        !bindings_overlap(dictation@, qa@) ==> r is Ok,
{
    reject_hotkey_overlap(dictation, qa, "QA 快捷键不能和听写快捷键相同")
}

/// The translation shortcut may not overlap the dictation shortcut.
pub fn reject_dictation_translation_hotkey_overlap(
    dictation: &ShortcutBinding,
    translation: &ShortcutBinding,
) -> (r: Result<(), String>)
    ensures
        bindings_overlap(dictation@, translation@) ==> (r matches Err(e) && e@
            == msg_dictation_translation()),
        !bindings_overlap(dictation@, translation@) ==> r is Ok,
{
    reject_hotkey_overlap(dictation, translation, "翻译快捷键不能和听写快捷键相同")
}

/// The style-switch shortcut may not overlap the dictation shortcut.
pub fn reject_dictation_switch_style_hotkey_overlap(
    dictation: &ShortcutBinding,
    switch_style: &ShortcutBinding,
) -> (r: Result<(), String>)
    ensures
        bindings_overlap(dictation@, switch_style@) ==> (r matches Err(e) && e@
            == msg_dictation_switch_style()),
        !bindings_overlap(dictation@, switch_style@) ==> r is Ok,
{
    reject_hotkey_overlap(dictation, switch_style, "切换风格快捷键不能和听写快捷键相同")
}

/// The open-app shortcut may not overlap the dictation shortcut.
pub fn reject_dictation_open_app_hotkey_overlap(
    dictation: &ShortcutBinding,
    open_app: &ShortcutBinding,
) -> (r: Result<(), String>)
    ensures
        bindings_overlap(dictation@, open_app@) ==> (r matches Err(e) && e@
            == msg_dictation_open_app()),
        !bindings_overlap(dictation@, open_app@) ==> r is Ok,
{
    reject_hotkey_overlap(dictation, open_app, "打开应用快捷键不能和听写快捷键相同")
}

/// The translation shortcut may not overlap the QA shortcut.
pub fn reject_qa_translation_hotkey_overlap(qa: &ShortcutBinding, translation: &ShortcutBinding) -> (r:
    Result<(), String>)
    ensures
        bindings_overlap(qa@, translation@) ==> (r matches Err(e) && e@ == msg_qa_translation()),
        !bindings_overlap(qa@, translation@) ==> r is Ok,
{
    reject_hotkey_overlap(qa, translation, "翻译快捷键不能和 QA 快捷键相同")
}

/// The style-switch shortcut may not overlap the QA shortcut.
pub fn reject_qa_switch_style_hotkey_overlap(qa: &ShortcutBinding, switch_style: &ShortcutBinding) -> (r:
    Result<(), String>)
    ensures
        bindings_overlap(qa@, switch_style@) ==> (r matches Err(e) && e@ == msg_qa_switch_style()),
        !bindings_overlap(qa@, switch_style@) ==> r is Ok,
{
    reject_hotkey_overlap(qa, switch_style, "切换风格快捷键不能和 QA 快捷键相同")
}

/// The open-app shortcut may not overlap the QA shortcut.
pub fn reject_qa_open_app_hotkey_overlap(qa: &ShortcutBinding, open_app: &ShortcutBinding) -> (r:
    Result<(), String>)
    ensures
        bindings_overlap(qa@, open_app@) ==> (r matches Err(e) && e@ == msg_qa_open_app()),
        !bindings_overlap(qa@, open_app@) ==> r is Ok,
{
    reject_hotkey_overlap(qa, open_app, "打开应用快捷键不能和 QA 快捷键相同")
}

/// The style-switch shortcut may not overlap the translation shortcut.
pub fn reject_translation_switch_style_hotkey_overlap(
    translation: &ShortcutBinding,
    switch_style: &ShortcutBinding,
) -> (r: Result<(), String>)
    ensures
        bindings_overlap(translation@, switch_style@) ==> (r matches Err(e) && e@
            == msg_translation_switch_style()),
        !bindings_overlap(translation@, switch_style@) ==> r is Ok,
{
    reject_hotkey_overlap(translation, switch_style, "切换风格快捷键不能和翻译快捷键相同")
}

/// The open-app shortcut may not overlap the translation shortcut.
pub fn reject_translation_open_app_hotkey_overlap(
    translation: &ShortcutBinding,
    open_app: &ShortcutBinding,
) -> (r: Result<(), String>)
    ensures
        bindings_overlap(translation@, open_app@) ==> (r matches Err(e) && e@
            == msg_translation_open_app()),
        !bindings_overlap(translation@, open_app@) ==> r is Ok,
{
    reject_hotkey_overlap(translation, open_app, "打开应用快捷键不能和翻译快捷键相同")
}

/// The open-app shortcut may not overlap the style-switch shortcut.
pub fn reject_switch_style_open_app_hotkey_overlap(
    switch_style: &ShortcutBinding,
    open_app: &ShortcutBinding,
) -> (r: Result<(), String>)
    ensures
        bindings_overlap(switch_style@, open_app@) ==> (r matches Err(e) && e@
            == msg_switch_style_open_app()),
        !bindings_overlap(switch_style@, open_app@) ==> r is Ok,
{
    reject_hotkey_overlap(switch_style, open_app, "打开应用快捷键不能和切换风格快捷键相同")
}

/// The first collision among the configured shortcuts, in the order they are
/// checked: the QA shortcut (when set) against dictation, translation, style
/// switch and open-app; then dictation against translation, style switch and
/// open-app; then translation against style switch and open-app; then style
/// switch against open-app.
pub open spec fn collision_message(p: UserPreferences) -> Option<Seq<char>> {
    let d = p.dictation_hotkey@;
    let t = p.translation_hotkey@;
    let s = p.switch_style_hotkey@;
    let o = p.open_app_hotkey@;
    let qa_hit = match p.qa_hotkey {
        Some(q) => if bindings_overlap(d, q@) {
            Some(msg_dictation_qa())
        } else if bindings_overlap(q@, t) {
            Some(msg_qa_translation())
        } else if bindings_overlap(q@, s) {
            Some(msg_qa_switch_style())
        } else if bindings_overlap(q@, o) {
            Some(msg_qa_open_app())
        } else {
            None
        },
        None => None,
    };
    if qa_hit is Some {
        qa_hit
    } else if bindings_overlap(d, t) {
        Some(msg_dictation_translation())
    } else if bindings_overlap(d, s) {
        Some(msg_dictation_switch_style())
    } else if bindings_overlap(d, o) {
        Some(msg_dictation_open_app())
    } else if bindings_overlap(t, s) {
        Some(msg_translation_switch_style())
    } else if bindings_overlap(t, o) {
        Some(msg_translation_open_app())
    } else if bindings_overlap(s, o) {
        Some(msg_switch_style_open_app())
    } else {
        None
    }
}

/// Rejects preferences in which two shortcuts overlap, with the message of
/// the first collision found.
pub fn reject_hotkey_collisions(prefs: &UserPreferences) -> (r: Result<(), String>)
    ensures
        collision_message(*prefs) matches Some(m) ==> (r matches Err(e) && e@ == m),
        collision_message(*prefs) is None ==> r is Ok,
{
    if let Some(qa_hotkey) = prefs.qa_hotkey.as_ref() {
        reject_dictation_qa_hotkey_overlap(&prefs.dictation_hotkey, qa_hotkey)?;
        reject_qa_translation_hotkey_overlap(qa_hotkey, &prefs.translation_hotkey)?;
        reject_qa_switch_style_hotkey_overlap(qa_hotkey, &prefs.switch_style_hotkey)?;
        reject_qa_open_app_hotkey_overlap(qa_hotkey, &prefs.open_app_hotkey)?;
    }
    reject_dictation_translation_hotkey_overlap(&prefs.dictation_hotkey, &prefs.translation_hotkey)?;
    reject_dictation_switch_style_hotkey_overlap(
        &prefs.dictation_hotkey,
        &prefs.switch_style_hotkey,
    )?;
    reject_dictation_open_app_hotkey_overlap(&prefs.dictation_hotkey, &prefs.open_app_hotkey)?;
    reject_translation_switch_style_hotkey_overlap(
        &prefs.translation_hotkey,
        &prefs.switch_style_hotkey,
    )?;
    reject_translation_open_app_hotkey_overlap(&prefs.translation_hotkey, &prefs.open_app_hotkey)?;
    reject_switch_style_open_app_hotkey_overlap(&prefs.switch_style_hotkey, &prefs.open_app_hotkey)?;
    Ok(())
}

/// The two preference values agree on every field that the dictation
/// shortcut's legacy mirror (`hotkey.trigger`, `custom_combo_hotkey`) leaves
/// alone.
pub open spec fn same_apart_from_legacy_mirror(a: UserPreferences, b: UserPreferences) -> bool {
    &&& a.hotkey.mode == b.hotkey.mode
    &&& a.hotkey.keys == b.hotkey.keys
    &&& a.dictation_hotkey == b.dictation_hotkey
    &&& a.qa_hotkey == b.qa_hotkey
    &&& a.translation_hotkey == b.translation_hotkey
    &&& a.switch_style_hotkey == b.switch_style_hotkey
    &&& a.open_app_hotkey == b.open_app_hotkey
    &&& a.translate_enabled == b.translate_enabled
    &&& a.android_insert_strategy == b.android_insert_strategy
    &&& a.android_overlay_trigger == b.android_overlay_trigger
    &&& a.android_overlay_activation_mode == b.android_overlay_activation_mode
    &&& a.android_overlay_left_swipe_action == b.android_overlay_left_swipe_action
    &&& a.android_overlay_cancel_swipe_direction == b.android_overlay_cancel_swipe_direction
    &&& a.android_overlay_size_dp == b.android_overlay_size_dp
    &&& a.foundry_local_asr_model == b.foundry_local_asr_model
    &&& a.foundry_local_asr_language_hint == b.foundry_local_asr_language_hint
    &&& a.local_asr_active_model == b.local_asr_active_model
    &&& a.local_asr_mirror == b.local_asr_mirror
    &&& a.local_asr_keep_loaded_secs == b.local_asr_keep_loaded_secs
}

/// The legacy mirror is in step with the dictation shortcut: a legacy
/// single-key shortcut sets `hotkey.trigger` to that key and clears the custom
/// combination; any other shortcut sets the trigger to `Custom` and stores the
/// shortcut as the custom combination, unless its key is blank.
pub open spec fn legacy_mirror_in_step(p: UserPreferences) -> bool {
    match legacy_trigger(p.dictation_hotkey@) {
        Some(t) => p.hotkey.trigger == t && p.custom_combo_hotkey is None,
        None => {
            &&& p.hotkey.trigger == HotkeyTrigger::Custom
            &&& trim(p.dictation_hotkey.primary@).len() == 0 ==> p.custom_combo_hotkey is None
            &&& trim(p.dictation_hotkey.primary@).len() > 0 ==> (p.custom_combo_hotkey matches Some(
                c,
            ) && c.primary@ == p.dictation_hotkey.primary@ && c.modifiers@
                == p.dictation_hotkey.modifiers@)
        },
    }
}

fn clone_strings(v: &Vec<String>) -> (r: Vec<String>)
    ensures
        r@ == v@,
{
    let mut r: Vec<String> = Vec::new();
    let mut i: usize = 0;
    while i < v.len()
        invariant
            i <= v.len(),
            r@ == v@.take(i as int),
        decreases v.len() - i,
    {
        r.push(v[i].clone());
        i += 1;
        assert(r@ =~= v@.take(i as int));
    }
    assert(v@.take(i as int) =~= v@);
    r
}

/// Brings the legacy `hotkey.trigger` / `custom_combo_hotkey` fields in step
/// with the dictation shortcut.
pub fn sync_dictation_hotkey_legacy_fields(prefs: &mut UserPreferences)
    ensures
        legacy_mirror_in_step(*final(prefs)),
        same_apart_from_legacy_mirror(*old(prefs), *final(prefs)),
{
    if let Some(trigger) = legacy_modifier_trigger(&prefs.dictation_hotkey) {
        prefs.hotkey.trigger = trigger;
        prefs.custom_combo_hotkey = None;
        return;
    }
    prefs.hotkey.trigger = HotkeyTrigger::Custom;
    let t = trim_str(prefs.dictation_hotkey.primary.as_str());
    if t.len() == 0 {
        prefs.custom_combo_hotkey = None;
    } else {
        let combo = ComboBinding {
            primary: prefs.dictation_hotkey.primary.clone(),
            modifiers: clone_strings(&prefs.dictation_hotkey.modifiers),
        };
        prefs.custom_combo_hotkey = Some(combo);
    }
}

/// Syncing the legacy mirror twice changes nothing the second time.
pub proof fn law_legacy_mirror_sync_is_stable(p: UserPreferences, q: UserPreferences)
    requires
        legacy_mirror_in_step(p),
        same_apart_from_legacy_mirror(p, q),
        legacy_mirror_in_step(q),
    ensures
        p.hotkey.trigger == q.hotkey.trigger,
        p.custom_combo_hotkey is None <==> q.custom_combo_hotkey is None,
{
}

/// A collision check only reads the shortcuts, so it is the same before and
/// after the legacy mirror is synced.
pub proof fn law_collisions_ignore_legacy_mirror(p: UserPreferences, q: UserPreferences)
    requires
        same_apart_from_legacy_mirror(p, q),
    ensures
        collision_message(p) == collision_message(q),
{
}

/// The error for a bare Shift as the dictation shortcut.
pub open spec fn msg_bare_shift() -> Seq<char> {
    "Shift 单键目前只能用于翻译快捷键"@
}

/// A bare Shift (no modifiers, any case) is kept for the translation shortcut.
pub fn reject_bare_shift_dictation_shortcut(binding: &ShortcutBinding) -> (r: Result<(), String>)
    ensures
        binding@.1.len() == 0 && eq_ignore_ascii_case(binding@.0, "shift"@) ==> (r matches Err(e)
            && e@ == msg_bare_shift()),
        !(binding@.1.len() == 0 && eq_ignore_ascii_case(binding@.0, "shift"@)) ==> r is Ok,
{
    broadcast use vstd::string::group_string_axioms;

    if binding.modifiers.len() == 0 && eq_ignore_ascii_case_exec(
        &chars_of(binding.primary.as_str()),
        &chars_of("shift"),
    ) {
        return Err("Shift 单键目前只能用于翻译快捷键".to_string());
    }
    Ok(())
}

/// The error for an action shortcut made of a modifier alone.
pub open spec fn msg_modifier_only() -> Seq<char> {
    "该快捷键需要使用组合键或非修饰主键"@
}

/// Action shortcuts (style switch, open app) need a combination or a
/// non-modifier key: a bare Shift or a legacy single modifier is refused.
pub fn reject_modifier_only_action_shortcut(binding: &ShortcutBinding) -> (r: Result<(), String>)
    ensures
        binding@.1.len() == 0 && (eq_ignore_ascii_case(binding@.0, "shift"@) || legacy_trigger(
            binding@,
        ) is Some) ==> (r matches Err(e) && e@ == msg_modifier_only()),
        !(binding@.1.len() == 0 && (eq_ignore_ascii_case(binding@.0, "shift"@) || legacy_trigger(
            binding@,
        ) is Some)) ==> r is Ok,
{
    broadcast use vstd::string::group_string_axioms;

    if binding.modifiers.len() == 0 && (eq_ignore_ascii_case_exec(
        &chars_of(binding.primary.as_str()),
        &chars_of("shift"),
    ) || legacy_modifier_trigger(binding).is_some()) {
        return Err("该快捷键需要使用组合键或非修饰主键".to_string());
    }
    Ok(())
}

/// Where preferences are saved and the hotkey monitors refreshed.
pub trait SettingsWriter {
    fn write_settings(&self, prefs: UserPreferences) -> Result<(), String>;

    fn refresh_dictation_hotkey(&self);

    fn refresh_qa_hotkey(&self);

    fn refresh_combo_hotkey(&self);

    fn refresh_translation_hotkey(&self);

    fn refresh_switch_style_hotkey(&self);

    fn refresh_open_app_hotkey(&self);
}

/// The preferences as they are saved: the legacy mirror brought in step, or
/// the first shortcut collision.
pub fn prepare_settings_for_save(prefs: UserPreferences) -> (r: Result<UserPreferences, String>)
    ensures
        collision_message(prefs) matches Some(m) ==> (r matches Err(e) && e@ == m),
        collision_message(prefs) is None ==> (r matches Ok(p) && legacy_mirror_in_step(p)
            && same_apart_from_legacy_mirror(prefs, p)),
{
    let mut prefs = prefs;
    let ghost before = prefs;
    sync_dictation_hotkey_legacy_fields(&mut prefs);
    proof {
        law_collisions_ignore_legacy_mirror(before, prefs);
    }
    reject_hotkey_collisions(&prefs)?;
    Ok(prefs)
}

/// Saves the preferences and refreshes every hotkey monitor; refused, with
/// nothing written, when two shortcuts collide. Without a collision the
/// writer is handed the preferences with the legacy mirror in step, its
/// error is passed on, and after a successful write each of the six hotkey
/// monitors is refreshed.
pub fn persist_settings<T: SettingsWriter>(coord: &T, prefs: UserPreferences) -> (r: Result<(), String>)
    ensures
        collision_message(prefs) matches Some(m) ==> (r matches Err(e) && e@ == m),
        collision_message(prefs) is None ==> exists|p: UserPreferences, w: Result<(), String>|
            #[trigger] call_ensures(T::write_settings, (coord, p), w)
                && legacy_mirror_in_step(p)
                && same_apart_from_legacy_mirror(prefs, p)
                && (w is Err ==> r == w)
                && (w is Ok ==> r is Ok),
        r is Ok ==> {
            &&& call_ensures(T::refresh_dictation_hotkey, (coord,), ())
            &&& call_ensures(T::refresh_qa_hotkey, (coord,), ())
            &&& call_ensures(T::refresh_combo_hotkey, (coord,), ())
            &&& call_ensures(T::refresh_translation_hotkey, (coord,), ())
            &&& call_ensures(T::refresh_switch_style_hotkey, (coord,), ())
            &&& call_ensures(T::refresh_open_app_hotkey, (coord,), ())
        },
{
    let prefs = prepare_settings_for_save(prefs)?;
    coord.write_settings(prefs)?;
    coord.refresh_dictation_hotkey();
    coord.refresh_qa_hotkey();
    coord.refresh_combo_hotkey();
    coord.refresh_translation_hotkey();
    coord.refresh_switch_style_hotkey();
    coord.refresh_open_app_hotkey();
    Ok(())
}

/// The message of a shortcut that cannot be registered.
pub open spec fn msg_unregistrable() -> Seq<char> {
    "快捷键在移动端不可用"@
}

/// A bare Shift, in any case, with no modifiers.
pub open spec fn bare_shift(b: (Seq<char>, Seq<Seq<char>>)) -> bool {
    b.1.len() == 0 && eq_ignore_ascii_case(b.0, "shift"@)
}

/// A modifier alone: a bare Shift or a legacy single-modifier shortcut.
pub open spec fn modifier_only(b: (Seq<char>, Seq<Seq<char>>)) -> bool {
    b.1.len() == 0 && (eq_ignore_ascii_case(b.0, "shift"@) || legacy_trigger(b) is Some)
}

/// Whether `b` overlaps the optional QA shortcut.
pub open spec fn overlaps_qa(qa: Option<ShortcutBinding>, b: (Seq<char>, Seq<Seq<char>>)) -> bool {
    qa matches Some(q) && bindings_overlap(q@, b)
}

/// Why a new dictation shortcut is refused, checked in this order: it cannot
/// be registered, it is a bare Shift, or it overlaps the QA, translation,
/// style-switch or open-app shortcut.
pub open spec fn dictation_change_error(p: UserPreferences, b: (Seq<char>, Seq<Seq<char>>)) -> Option<Seq<char>> {
    if parsed_hotkey(b) is None {
        Some(msg_unregistrable())
    } else if bare_shift(b) {
        Some(msg_bare_shift())
    } else if overlaps_qa(p.qa_hotkey, b) {
        Some(msg_dictation_qa())
    } else if bindings_overlap(b, p.translation_hotkey@) {
        Some(msg_dictation_translation())
    } else if bindings_overlap(b, p.switch_style_hotkey@) {
        Some(msg_dictation_switch_style())
    } else if bindings_overlap(b, p.open_app_hotkey@) {
        Some(msg_dictation_open_app())
    } else {
        None
    }
}

fn check_registrable(binding: &ShortcutBinding) -> (r: Result<(), String>)
    ensures
        parsed_hotkey(binding@) is Some ==> r is Ok,
        parsed_hotkey(binding@) is None ==> (r matches Err(e) && e@ == msg_unregistrable()),
{
    match validate_binding(binding) {
        Ok(()) => Ok(()),
        Err(e) => Err(e.message()),
    }
}

fn reject_qa_overlap(qa: &Option<ShortcutBinding>, binding: &ShortcutBinding, message: &'static str) -> (r: Result<(), String>)
    ensures
        overlaps_qa(*qa, binding@) ==> (r matches Err(e) && e@ == message@),
        !overlaps_qa(*qa, binding@) ==> r is Ok,
{
    match qa {
        Some(q) => reject_hotkey_overlap(q, binding, message),
        None => Ok(()),
    }
}

/// The preferences with a new dictation shortcut, its legacy mirror brought
/// in step; refused with the first reason of `dictation_change_error`.
pub fn apply_dictation_hotkey(prefs: UserPreferences, binding: ShortcutBinding) -> (r: Result<UserPreferences, String>)
    ensures
        dictation_change_error(prefs, binding@) matches Some(m) ==> (r matches Err(e) && e@ == m),
        dictation_change_error(prefs, binding@) is None ==> (r matches Ok(p) && legacy_mirror_in_step(p)
            && same_apart_from_legacy_mirror(UserPreferences { dictation_hotkey: binding, ..prefs }, p)),
{
    check_registrable(&binding)?;
    reject_bare_shift_dictation_shortcut(&binding)?;
    reject_qa_overlap(&prefs.qa_hotkey, &binding, "QA 快捷键不能和听写快捷键相同")?;
    reject_dictation_translation_hotkey_overlap(&binding, &prefs.translation_hotkey)?;
    reject_dictation_switch_style_hotkey_overlap(&binding, &prefs.switch_style_hotkey)?;
    reject_dictation_open_app_hotkey_overlap(&binding, &prefs.open_app_hotkey)?;
    let mut p = prefs;
    p.dictation_hotkey = binding;
    sync_dictation_hotkey_legacy_fields(&mut p);
    Ok(p)
}

/// Why a new QA shortcut is refused: it cannot be registered, it is a bare
/// Shift, or it overlaps the dictation, translation, style-switch or
/// open-app shortcut. Clearing the QA shortcut is never refused.
pub open spec fn qa_change_error(p: UserPreferences, b: Option<ShortcutBinding>) -> Option<Seq<char>> {
    match b {
        None => None,
        Some(q) => if parsed_hotkey(q@) is None {
            Some(msg_unregistrable())
        } else if bare_shift(q@) {
            Some(msg_bare_shift())
        } else if bindings_overlap(p.dictation_hotkey@, q@) {
            Some(msg_dictation_qa())
        } else if bindings_overlap(q@, p.translation_hotkey@) {
            Some(msg_qa_translation())
        } else if bindings_overlap(q@, p.switch_style_hotkey@) {
            Some(msg_qa_switch_style())
        } else if bindings_overlap(q@, p.open_app_hotkey@) {
            Some(msg_qa_open_app())
        } else {
            None
        },
    }
}

/// The preferences with a new (or no) QA shortcut.
pub fn apply_qa_hotkey(prefs: UserPreferences, binding: Option<ShortcutBinding>) -> (r: Result<UserPreferences, String>)
    ensures
        qa_change_error(prefs, binding) matches Some(m) ==> (r matches Err(e) && e@ == m),
        qa_change_error(prefs, binding) is None ==> r == Ok::<UserPreferences, String>(
            UserPreferences { qa_hotkey: binding, ..prefs },
        ),
{
    if let Some(b) = &binding {
        check_registrable(b)?;
        reject_bare_shift_dictation_shortcut(b)?;
        reject_dictation_qa_hotkey_overlap(&prefs.dictation_hotkey, b)?;
        reject_qa_translation_hotkey_overlap(b, &prefs.translation_hotkey)?;
        reject_qa_switch_style_hotkey_overlap(b, &prefs.switch_style_hotkey)?;
        reject_qa_open_app_hotkey_overlap(b, &prefs.open_app_hotkey)?;
    }
    let mut p = prefs;
    p.qa_hotkey = binding;
    Ok(p)
}

/// Why a new translation shortcut is refused: it cannot be registered, or it
/// overlaps the dictation, QA, style-switch or open-app shortcut.
pub open spec fn translation_change_error(p: UserPreferences, b: (Seq<char>, Seq<Seq<char>>)) -> Option<Seq<char>> {
    if parsed_hotkey(b) is None {
        Some(msg_unregistrable())
    } else if bindings_overlap(p.dictation_hotkey@, b) {
        Some(msg_dictation_translation())
    } else if overlaps_qa(p.qa_hotkey, b) {
        Some(msg_qa_translation())
    } else if bindings_overlap(b, p.switch_style_hotkey@) {
        Some(msg_translation_switch_style())
    } else if bindings_overlap(b, p.open_app_hotkey@) {
        Some(msg_translation_open_app())
    } else {
        None
    }
}

/// The preferences with a new translation shortcut.
pub fn apply_translation_hotkey(prefs: UserPreferences, binding: ShortcutBinding) -> (r: Result<UserPreferences, String>)
    ensures
        translation_change_error(prefs, binding@) matches Some(m) ==> (r matches Err(e) && e@ == m),
        translation_change_error(prefs, binding@) is None ==> r == Ok::<UserPreferences, String>(
            UserPreferences { translation_hotkey: binding, ..prefs },
        ),
{
    check_registrable(&binding)?;
    reject_dictation_translation_hotkey_overlap(&prefs.dictation_hotkey, &binding)?;
    reject_qa_overlap(&prefs.qa_hotkey, &binding, "翻译快捷键不能和 QA 快捷键相同")?;
    reject_translation_switch_style_hotkey_overlap(&binding, &prefs.switch_style_hotkey)?;
    reject_translation_open_app_hotkey_overlap(&binding, &prefs.open_app_hotkey)?;
    let mut p = prefs;
    p.translation_hotkey = binding;
    Ok(p)
}

/// Why a new style-switch shortcut is refused: it cannot be registered, it
/// is a modifier alone, or it overlaps the dictation, translation, QA or
/// open-app shortcut.
pub open spec fn switch_style_change_error(p: UserPreferences, b: (Seq<char>, Seq<Seq<char>>)) -> Option<Seq<char>> {
    if parsed_hotkey(b) is None {
        Some(msg_unregistrable())
    } else if modifier_only(b) {
        Some(msg_modifier_only())
    } else if bindings_overlap(p.dictation_hotkey@, b) {
        Some(msg_dictation_switch_style())
    } else if bindings_overlap(p.translation_hotkey@, b) {
        Some(msg_translation_switch_style())
    } else if overlaps_qa(p.qa_hotkey, b) {
        Some(msg_qa_switch_style())
    } else if bindings_overlap(b, p.open_app_hotkey@) {
        Some(msg_switch_style_open_app())
    } else {
        None
    }
}

/// The preferences with a new style-switch shortcut.
pub fn apply_switch_style_hotkey(prefs: UserPreferences, binding: ShortcutBinding) -> (r: Result<UserPreferences, String>)
    ensures
        switch_style_change_error(prefs, binding@) matches Some(m) ==> (r matches Err(e) && e@ == m),
        switch_style_change_error(prefs, binding@) is None ==> r == Ok::<UserPreferences, String>(
            UserPreferences { switch_style_hotkey: binding, ..prefs },
        ),
{
    check_registrable(&binding)?;
    reject_modifier_only_action_shortcut(&binding)?;
    reject_dictation_switch_style_hotkey_overlap(&prefs.dictation_hotkey, &binding)?;
    reject_translation_switch_style_hotkey_overlap(&prefs.translation_hotkey, &binding)?;
    reject_qa_overlap(&prefs.qa_hotkey, &binding, "切换风格快捷键不能和 QA 快捷键相同")?;
    reject_switch_style_open_app_hotkey_overlap(&binding, &prefs.open_app_hotkey)?;
    let mut p = prefs;
    p.switch_style_hotkey = binding;
    Ok(p)
}

/// Why a new open-app shortcut is refused: it cannot be registered, it is a
/// modifier alone, or it overlaps the dictation, translation, QA or
/// style-switch shortcut.
pub open spec fn open_app_change_error(p: UserPreferences, b: (Seq<char>, Seq<Seq<char>>)) -> Option<Seq<char>> {
    if parsed_hotkey(b) is None {
        Some(msg_unregistrable())
    } else if modifier_only(b) {
        Some(msg_modifier_only())
    } else if bindings_overlap(p.dictation_hotkey@, b) {
        Some(msg_dictation_open_app())
    } else if bindings_overlap(p.translation_hotkey@, b) {
        Some(msg_translation_open_app())
    } else if overlaps_qa(p.qa_hotkey, b) {
        Some(msg_qa_open_app())
    } else if bindings_overlap(p.switch_style_hotkey@, b) {
        Some(msg_switch_style_open_app())
    } else {
        None
    }
}

/// The preferences with a new open-app shortcut.
pub fn apply_open_app_hotkey(prefs: UserPreferences, binding: ShortcutBinding) -> (r: Result<UserPreferences, String>)
    ensures
        open_app_change_error(prefs, binding@) matches Some(m) ==> (r matches Err(e) && e@ == m),
        open_app_change_error(prefs, binding@) is None ==> r == Ok::<UserPreferences, String>(
            UserPreferences { open_app_hotkey: binding, ..prefs },
        ),
{
    check_registrable(&binding)?;
    reject_modifier_only_action_shortcut(&binding)?;
    reject_dictation_open_app_hotkey_overlap(&prefs.dictation_hotkey, &binding)?;
    reject_translation_open_app_hotkey_overlap(&prefs.translation_hotkey, &binding)?;
    reject_qa_overlap(&prefs.qa_hotkey, &binding, "打开应用快捷键不能和 QA 快捷键相同")?;
    reject_switch_style_open_app_hotkey_overlap(&prefs.switch_style_hotkey, &binding)?;
    let mut p = prefs;
    p.open_app_hotkey = binding;
    Ok(p)
}

/// Checks a custom dictation combination: a bare Shift is refused, and the
/// combination must parse as a shortcut.
pub fn validate_combo_hotkey(binding: ComboBinding) -> (r: Result<(), String>)
    ensures
        bare_shift((binding.primary@, binding.modifiers@.map_values(|m: String| m@))) ==> (r matches Err(e) && e@
            == msg_bare_shift()),
        !bare_shift((binding.primary@, binding.modifiers@.map_values(|m: String| m@))) && parsed_hotkey(
            (binding.primary@, binding.modifiers@.map_values(|m: String| m@)),
        ) is None ==> (r matches Err(e) && e@ == msg_unregistrable()),
        !bare_shift((binding.primary@, binding.modifiers@.map_values(|m: String| m@))) && parsed_hotkey(
            (binding.primary@, binding.modifiers@.map_values(|m: String| m@)),
        ) is Some ==> r is Ok,
{
    let shortcut = ShortcutBinding { primary: binding.primary, modifiers: binding.modifiers };
    reject_bare_shift_dictation_shortcut(&shortcut)?;
    check_registrable(&shortcut)
}

/// Why a new custom dictation combination is refused: it is a bare Shift,
/// it does not parse, or it overlaps the QA, translation, style-switch or
/// open-app shortcut.
pub open spec fn combo_change_error(p: UserPreferences, b: (Seq<char>, Seq<Seq<char>>)) -> Option<Seq<char>> {
    if bare_shift(b) {
        Some(msg_bare_shift())
    } else if parsed_hotkey(b) is None {
        Some(msg_unregistrable())
    } else if overlaps_qa(p.qa_hotkey, b) {
        Some(msg_dictation_qa())
    } else if bindings_overlap(b, p.translation_hotkey@) {
        Some(msg_dictation_translation())
    } else if bindings_overlap(b, p.switch_style_hotkey@) {
        Some(msg_dictation_switch_style())
    } else if bindings_overlap(b, p.open_app_hotkey@) {
        Some(msg_dictation_open_app())
    } else {
        None
    }
}

/// The preferences with a new custom dictation combination, which becomes
/// the dictation shortcut, its legacy mirror brought in step.
pub fn apply_combo_hotkey(prefs: UserPreferences, binding: ComboBinding) -> (r: Result<UserPreferences, String>)
    ensures
        combo_change_error(prefs, (binding.primary@, binding.modifiers@.map_values(|m: String| m@))) matches Some(m)
            ==> (r matches Err(e) && e@ == m),
        combo_change_error(prefs, (binding.primary@, binding.modifiers@.map_values(|m: String| m@))) is None ==> (r matches Ok(p)
            && legacy_mirror_in_step(p) && p.dictation_hotkey@ == (binding.primary@, binding.modifiers@.map_values(
            |m: String| m@,
        )) && same_apart_from_legacy_mirror(UserPreferences { dictation_hotkey: p.dictation_hotkey, ..prefs }, p)),
{
    let shortcut = ShortcutBinding { primary: binding.primary, modifiers: binding.modifiers };
    reject_bare_shift_dictation_shortcut(&shortcut)?;
    check_registrable(&shortcut)?;
    reject_qa_overlap(&prefs.qa_hotkey, &shortcut, "QA 快捷键不能和听写快捷键相同")?;
    reject_dictation_translation_hotkey_overlap(&shortcut, &prefs.translation_hotkey)?;
    reject_dictation_switch_style_hotkey_overlap(&shortcut, &prefs.switch_style_hotkey)?;
    reject_dictation_open_app_hotkey_overlap(&shortcut, &prefs.open_app_hotkey)?;
    let mut p = prefs;
    p.dictation_hotkey = shortcut;
    sync_dictation_hotkey_legacy_fields(&mut p);
    Ok(p)
}

/// A shortcut change that is accepted keeps collision-free preferences
/// collision-free, whichever shortcut is changed.
pub proof fn law_accepted_shortcut_change_keeps_shortcuts_apart(p: UserPreferences, b: ShortcutBinding, q: Option<ShortcutBinding>)
    requires
        collision_message(p) is None,
    ensures
        dictation_change_error(p, b@) is None ==> collision_message(UserPreferences { dictation_hotkey: b, ..p }) is None,
        combo_change_error(p, b@) is None ==> collision_message(UserPreferences { dictation_hotkey: b, ..p }) is None,
        qa_change_error(p, q) is None ==> collision_message(UserPreferences { qa_hotkey: q, ..p }) is None,
        translation_change_error(p, b@) is None ==> collision_message(UserPreferences { translation_hotkey: b, ..p })
            is None,
        switch_style_change_error(p, b@) is None ==> collision_message(UserPreferences { switch_style_hotkey: b, ..p })
            is None,
        open_app_change_error(p, b@) is None ==> collision_message(UserPreferences { open_app_hotkey: b, ..p })
            is None,
{
    if let Some(qa) = p.qa_hotkey {
        law_overlap_symmetric(qa@, b@);
    }
    if let Some(nq) = q {
        law_overlap_symmetric(nq@, p.dictation_hotkey@);
    }
    law_overlap_symmetric(b@, p.translation_hotkey@);
    law_overlap_symmetric(b@, p.switch_style_hotkey@);
    law_overlap_symmetric(b@, p.open_app_hotkey@);
    law_overlap_symmetric(b@, p.dictation_hotkey@);
}

} // verus!
