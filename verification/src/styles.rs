//! The polish styles: the built-in modes, the user's custom modes, which
//! modes are enabled, the default mode, and the per-application overrides,
//! with the rules that keep them consistent when they are edited.

use vstd::prelude::*;
use crate::text::{chars_of, concat_str, str_is, string_from_chars, trim, trim_str};

verus! {

/// A polish mode: one of the four built-in styles, or a custom mode by id.
#[derive(Debug, Clone, PartialEq, Eq)]
pub enum PolishMode {
    Raw,
    Light,
    Structured,
    Formal,
    Custom(String),
}

impl View for PolishMode {
    /// A tag (0 to 3 for the built-in modes, 4 for a custom one) and the
    /// custom id (empty for a built-in mode).
    type V = (u8, Seq<char>);

    open spec fn view(&self) -> (u8, Seq<char>) {
        match self {
            PolishMode::Raw => (0, Seq::empty()),
            PolishMode::Light => (1, Seq::empty()),
            PolishMode::Structured => (2, Seq::empty()),
            PolishMode::Formal => (3, Seq::empty()),
            PolishMode::Custom(id) => (4, id@),
        }
    }
}

/// A user-defined style.
#[derive(Debug, Clone, PartialEq, Eq)]
pub struct CustomMode {
    pub id: String,
    pub name: String,
    pub prompt: String,
}

/// A mode chosen automatically for the applications matching a pattern.
#[derive(Debug, Clone, PartialEq, Eq)]
pub struct AppModeOverride {
    pub app_pattern: String,
    pub mode: PolishMode,
}

/// The style part of the preferences.
#[derive(Debug, Clone)]
pub struct StyleSettings {
    pub default_mode: PolishMode,
    pub enabled_modes: Vec<PolishMode>,
    pub custom_modes: Vec<CustomMode>,
    pub app_mode_overrides: Vec<AppModeOverride>,
}

/// The ids of the custom modes, in order.
pub open spec fn custom_ids(c: Seq<CustomMode>) -> Seq<Seq<char>> {
    c.map_values(|m: CustomMode| m.id@)
}

/// The views of a list of modes.
pub open spec fn mode_views(v: Seq<PolishMode>) -> Seq<(u8, Seq<char>)> {
    v.map_values(|m: PolishMode| m@)
}

/// `custom mode id '<id>' not found`.
pub open spec fn msg_custom_not_found(id: Seq<char>) -> Seq<char> {
    "custom mode id '"@ + id + "' not found"@
}

fn quoted_message(before: &str, id: &str, after: &str) -> (r: String)
    ensures
        r@ == before@ + id@ + after@,
{
    let head = concat_str(before, id);
    concat_str(head.as_str(), after)
}

/// Whether a custom mode with id `id` exists.
pub fn custom_mode_exists(custom_modes: &Vec<CustomMode>, id: &str) -> (r: bool)
    ensures
        r == custom_ids(custom_modes@).contains(id@),
{
    let mut i: usize = 0;
    while i < custom_modes.len()
        invariant
            i <= custom_modes@.len(),
            forall|k: int| 0 <= k < i ==> custom_modes@[k].id@ != id@,
        decreases custom_modes@.len() - i,
    {
        if str_is(custom_modes[i].id.as_str(), id) {
            assert(custom_ids(custom_modes@)[i as int] == id@);
            return true;
        }
        i += 1;
    }
    proof {
        if custom_ids(custom_modes@).contains(id@) {
            let k = choose|k: int| 0 <= k < custom_ids(custom_modes@).len() && custom_ids(custom_modes@)[k] == id@;
            assert(custom_modes@[k].id@ == id@);
        }
    }
    false
}

/// Whether a mode refers to a custom mode that does not exist.
pub open spec fn dangling(mode: (u8, Seq<char>), custom: Seq<CustomMode>) -> bool {
    mode.0 == 4 && !custom_ids(custom).contains(mode.1)
}

fn check_mode_known(custom_modes: &Vec<CustomMode>, mode: &PolishMode) -> (r: Result<(), String>)
    ensures
        dangling(mode@, custom_modes@) ==> (r matches Err(m) && m@ == msg_custom_not_found(mode@.1)),
        !dangling(mode@, custom_modes@) ==> r is Ok,
{
    if let PolishMode::Custom(id) = mode {
        if !custom_mode_exists(custom_modes, id.as_str()) {
            return Err(quoted_message("custom mode id '", id.as_str(), "' not found"));
        }
    }
    Ok(())
}

/// Makes `mode` the default; a custom mode must exist.
pub fn set_default_polish_mode(settings: StyleSettings, mode: PolishMode) -> (r: Result<StyleSettings, String>)
    ensures
        dangling(mode@, settings.custom_modes@) ==> (r matches Err(m) && m@ == msg_custom_not_found(mode@.1)),
        !dangling(mode@, settings.custom_modes@) ==> (r matches Ok(s) && s.default_mode@ == mode@
            && s.enabled_modes == settings.enabled_modes && s.custom_modes == settings.custom_modes
            && s.app_mode_overrides == settings.app_mode_overrides),
{
    check_mode_known(&settings.custom_modes, &mode)?;
    let mut s = settings;
    s.default_mode = mode;
    Ok(s)
}

fn same_mode(a: &PolishMode, b: &PolishMode) -> (r: bool)
    ensures
        r == (a@ == b@),
{
    match (a, b) {
        (PolishMode::Raw, PolishMode::Raw) => true,
        (PolishMode::Light, PolishMode::Light) => true,
        (PolishMode::Structured, PolishMode::Structured) => true,
        (PolishMode::Formal, PolishMode::Formal) => true,
        (PolishMode::Custom(x), PolishMode::Custom(y)) => str_is(x.as_str(), y.as_str()),
        _ => false,
    }
}

fn clone_mode(m: &PolishMode) -> (r: PolishMode)
    ensures
        r@ == m@,
{
    match m {
        PolishMode::Raw => PolishMode::Raw,
        PolishMode::Light => PolishMode::Light,
        PolishMode::Structured => PolishMode::Structured,
        PolishMode::Formal => PolishMode::Formal,
        PolishMode::Custom(id) => PolishMode::Custom(id.clone()),
    }
}

/// Every mode but `mode`.
pub open spec fn other_than(mode: (u8, Seq<char>)) -> spec_fn((u8, Seq<char>)) -> bool {
    |m: (u8, Seq<char>)| m != mode
}

/// The enabled modes without `mode`, in order.
fn without_mode(modes: &Vec<PolishMode>, mode: &PolishMode) -> (r: Vec<PolishMode>)
    ensures
        mode_views(r@) == mode_views(modes@).filter(other_than(mode@)),
{
    let ghost pred = other_than(mode@);
    let ghost all = mode_views(modes@);
    let mut out: Vec<PolishMode> = Vec::new();
    let mut i: usize = 0;
    while i < modes.len()
        invariant
            i <= modes@.len(),
            all == mode_views(modes@),
            pred == other_than(mode@),
            mode_views(out@) == all.take(i as int).filter(pred),
        decreases modes@.len() - i,
    {
        assert(all.take(i + 1).drop_last() =~= all.take(i as int));
        let same = same_mode(&modes[i], mode);
        proof {
            assert(all.take(i + 1).last() == modes@[i as int]@);
            reveal(Seq::filter);
        }
        if !same {
            out.push(clone_mode(&modes[i]));
            assert(mode_views(out@) =~= all.take(i as int).filter(pred).push(modes@[i as int]@));
        }
        assert(mode_views(out@) == all.take(i + 1).filter(pred));
        i += 1;
    }
    assert(all.take(i as int) =~= all);
    out
}

/// Whether `mode` is among the enabled modes.
fn has_mode(modes: &Vec<PolishMode>, mode: &PolishMode) -> (r: bool)
    ensures
        r == mode_views(modes@).contains(mode@),
{
    let mut i: usize = 0;
    while i < modes.len()
        invariant
            i <= modes@.len(),
            forall|k: int| 0 <= k < i ==> modes@[k]@ != mode@,
        decreases modes@.len() - i,
    {
        if same_mode(&modes[i], mode) {
            assert(mode_views(modes@)[i as int] == mode@);
            return true;
        }
        i += 1;
    }
    proof {
        if mode_views(modes@).contains(mode@) {
            let k = choose|k: int| 0 <= k < mode_views(modes@).len() && mode_views(modes@)[k] == mode@;
            assert(modes@[k]@ == mode@);
        }
    }
    false
}

/// The enabled modes after `mode` is switched on or off: switching on adds
/// it once at the end, switching off removes every occurrence.
pub open spec fn toggled_modes(modes: Seq<(u8, Seq<char>)>, mode: (u8, Seq<char>), enabled: bool) -> Seq<(u8, Seq<char>)> {
    if enabled {
        if modes.contains(mode) {
            modes
        } else {
            modes.push(mode)
        }
    } else {
        modes.filter(other_than(mode))
    }
}

/// Switches a style on or off; a custom mode must exist to be switched on.
pub fn set_style_enabled(settings: StyleSettings, mode: PolishMode, enabled: bool) -> (r: Result<StyleSettings, String>)
    ensures
        enabled && dangling(mode@, settings.custom_modes@) ==> (r matches Err(m) && m@ == msg_custom_not_found(
            mode@.1,
        )),
        !(enabled && dangling(mode@, settings.custom_modes@)) ==> (r matches Ok(s) && mode_views(s.enabled_modes@)
            == toggled_modes(mode_views(settings.enabled_modes@), mode@, enabled) && s.default_mode
            == settings.default_mode && s.custom_modes == settings.custom_modes && s.app_mode_overrides
            == settings.app_mode_overrides),
{
    let mut s = settings;
    if enabled {
        check_mode_known(&s.custom_modes, &mode)?;
        if !has_mode(&s.enabled_modes, &mode) {
            s.enabled_modes.push(mode);
            assert(mode_views(s.enabled_modes@) =~= mode_views(settings.enabled_modes@).push(mode@));
        }
    } else {
        let kept = without_mode(&s.enabled_modes, &mode);
        s.enabled_modes = kept;
    }
    Ok(s)
}

/// The views of the custom modes: id, name and prompt.
pub open spec fn custom_views(c: Seq<CustomMode>) -> Seq<(Seq<char>, Seq<char>, Seq<char>)> {
    c.map_values(|m: CustomMode| (m.id@, m.name@, m.prompt@))
}

/// Why a new custom mode is refused: its trimmed id is empty, holds a `:`,
/// or is taken.
pub open spec fn add_custom_error(custom: Seq<CustomMode>, id: Seq<char>) -> Option<Seq<char>> {
    let t = trim(id);
    if t.len() == 0 {
        Some("custom mode id is empty"@)
    } else if t.contains(':') {
        Some("custom mode id cannot contain ':'"@)
    } else if custom_ids(custom).contains(t) {
        Some("custom mode id '"@ + t + "' already exists"@)
    } else {
        None
    }
}

fn has_colon(v: &Vec<char>) -> (r: bool)
    ensures
        r == v@.contains(':'),
{
    let mut i: usize = 0;
    while i < v.len()
        invariant
            i <= v@.len(),
            forall|k: int| 0 <= k < i ==> v@[k] != ':',
        decreases v@.len() - i,
    {
        if v[i] == ':' {
            return true;
        }
        i += 1;
    }
    false
}

/// Adds a custom mode at the end, under its trimmed id.
pub fn add_custom_mode(settings: StyleSettings, id: &str, name: String, prompt: String) -> (r: Result<StyleSettings, String>)
    ensures
        add_custom_error(settings.custom_modes@, id@) matches Some(m) ==> (r matches Err(e) && e@ == m),
        add_custom_error(settings.custom_modes@, id@) is None ==> (r matches Ok(s) && custom_views(s.custom_modes@)
            == custom_views(settings.custom_modes@).push((trim(id@), name@, prompt@)) && s.default_mode
            == settings.default_mode && s.enabled_modes == settings.enabled_modes && s.app_mode_overrides
            == settings.app_mode_overrides),
{
    broadcast use vstd::string::group_string_axioms;

    let trimmed = trim_str(id);
    if trimmed.len() == 0 {
        return Err("custom mode id is empty".to_string());
    }
    if has_colon(&trimmed) {
        return Err("custom mode id cannot contain ':'".to_string());
    }
    let id_trim = string_from_chars(&trimmed);
    if custom_mode_exists(&settings.custom_modes, id_trim.as_str()) {
        return Err(quoted_message("custom mode id '", id_trim.as_str(), "' already exists"));
    }
    let mut s = settings;
    s.custom_modes.push(CustomMode { id: id_trim, name, prompt });
    assert(custom_views(s.custom_modes@) =~= custom_views(settings.custom_modes@).push((trim(id@), name@, prompt@)));
    Ok(s)
}

/// The index of the first custom mode with id `id`.
pub open spec fn first_custom(custom: Seq<CustomMode>, id: Seq<char>) -> int {
    choose|i: int| 0 <= i < custom.len() && custom[i].id@ == id && forall|j: int| 0 <= j < i ==> custom[j].id@ != id
}

/// Renames and re-prompts the first custom mode with id `id`.
pub fn update_custom_mode(settings: StyleSettings, id: &str, name: String, prompt: String) -> (r: Result<StyleSettings, String>)
    ensures
        !custom_ids(settings.custom_modes@).contains(id@) ==> (r matches Err(e) && e@ == msg_custom_not_found(id@)),
        custom_ids(settings.custom_modes@).contains(id@) ==> (r matches Ok(s) && custom_views(s.custom_modes@)
            == custom_views(settings.custom_modes@).update(
            first_custom(settings.custom_modes@, id@),
            (id@, name@, prompt@),
        ) && s.default_mode == settings.default_mode && s.enabled_modes == settings.enabled_modes
            && s.app_mode_overrides == settings.app_mode_overrides),
{
    let ghost c = settings.custom_modes@;
    let mut i: usize = 0;
    while i < settings.custom_modes.len()
        invariant
            i <= c.len(),
            c == settings.custom_modes@,
            forall|k: int| 0 <= k < i ==> c[k].id@ != id@,
        decreases c.len() - i,
    {
        if str_is(settings.custom_modes[i].id.as_str(), id) {
            let mut s = settings;
            let entry = CustomMode { id: s.custom_modes[i].id.clone(), name, prompt };
            s.custom_modes.set(i, entry);
            proof {
                assert(custom_ids(c)[i as int] == id@);
                let f = first_custom(c, id@);
                assert(0 <= f < c.len() && c[f].id@ == id@ && forall|j: int| 0 <= j < f ==> c[j].id@ != id@);
                if f < i {
                    assert(c[f].id@ != id@);
                }
                if f > i {
                    assert(c[i as int].id@ != id@);
                }
                assert(custom_views(s.custom_modes@) =~= custom_views(c).update(f, (id@, name@, prompt@)));
            }
            return Ok(s);
        }
        i += 1;
    }
    proof {
        if custom_ids(c).contains(id@) {
            let k = choose|k: int| 0 <= k < custom_ids(c).len() && custom_ids(c)[k] == id@;
            assert(c[k].id@ == id@);
        }
    }
    Err(quoted_message("custom mode id '", id, "' not found"))
}

/// The custom modes without those with id `id`, in order.
fn without_custom(custom: &Vec<CustomMode>, id: &str) -> (r: Vec<CustomMode>)
    ensures
        custom_views(r@) == custom_views(custom@).filter(|m: (Seq<char>, Seq<char>, Seq<char>)| m.0 != id@),
{
    let ghost pred = |m: (Seq<char>, Seq<char>, Seq<char>)| m.0 != id@;
    let ghost all = custom_views(custom@);
    let mut out: Vec<CustomMode> = Vec::new();
    let mut i: usize = 0;
    while i < custom.len()
        invariant
            i <= custom@.len(),
            all == custom_views(custom@),
            pred == (|m: (Seq<char>, Seq<char>, Seq<char>)| m.0 != id@),
            custom_views(out@) == all.take(i as int).filter(pred),
        decreases custom@.len() - i,
    {
        assert(all.take(i + 1).drop_last() =~= all.take(i as int));
        let same = str_is(custom[i].id.as_str(), id);
        proof {
            assert(all.take(i + 1).last() == (custom@[i as int].id@, custom@[i as int].name@, custom@[i as int].prompt@));
            reveal(Seq::filter);
        }
        if !same {
            let m = CustomMode {
                id: custom[i].id.clone(),
                name: custom[i].name.clone(),
                prompt: custom[i].prompt.clone(),
            };
            out.push(m);
            assert(custom_views(out@) =~= all.take(i as int).filter(pred).push(all[i as int]));
        }
        assert(custom_views(out@) == all.take(i + 1).filter(pred));
        i += 1;
    }
    assert(all.take(i as int) =~= all);
    out
}

/// The mode used as the default after a custom mode is deleted: the light
/// style when the default was the deleted mode.
pub open spec fn default_after_delete(default_mode: (u8, Seq<char>), id: Seq<char>) -> (u8, Seq<char>) {
    if default_mode == (4u8, id) {
        (1u8, Seq::empty())
    } else {
        default_mode
    }
}

/// Deletes the custom modes with id `id`; the default falls back to the
/// light style when it was that mode, and the mode is no longer enabled.
pub fn delete_custom_mode(settings: StyleSettings, id: &str) -> (r: Result<StyleSettings, String>)
    ensures
        !custom_ids(settings.custom_modes@).contains(id@) ==> (r matches Err(e) && e@ == msg_custom_not_found(id@)),
        custom_ids(settings.custom_modes@).contains(id@) ==> (r matches Ok(s) && custom_views(s.custom_modes@)
            == custom_views(settings.custom_modes@).filter(|m: (Seq<char>, Seq<char>, Seq<char>)| m.0 != id@)
            && s.default_mode@ == default_after_delete(settings.default_mode@, id@) && mode_views(s.enabled_modes@)
            == mode_views(settings.enabled_modes@).filter(other_than((4u8, id@)))
            && s.app_mode_overrides == settings.app_mode_overrides),
{
    if !custom_mode_exists(&settings.custom_modes, id) {
        return Err(quoted_message("custom mode id '", id, "' not found"));
    }
    let mut s = settings;
    let kept = without_custom(&s.custom_modes, id);
    s.custom_modes = kept;
    let deleted = PolishMode::Custom(id.to_string());
    proof {
        broadcast use vstd::string::group_string_axioms;
        assert(deleted@ == (4u8, id@));
    }
    if same_mode(&s.default_mode, &deleted) {
        s.default_mode = PolishMode::Light;
    }
    let enabled = without_mode(&s.enabled_modes, &deleted);
    s.enabled_modes = enabled;
    Ok(s)
}

/// The first override that names a custom mode that does not exist.
pub open spec fn first_dangling_override(overrides: Seq<AppModeOverride>, custom: Seq<CustomMode>) -> Option<Seq<char>>
    decreases overrides.len(),
{
    if overrides.len() == 0 {
        None
    } else {
        match first_dangling_override(overrides.drop_last(), custom) {
            Some(id) => Some(id),
            None => if dangling(overrides.last().mode@, custom) {
                Some(overrides.last().mode@.1)
            } else {
                None
            },
        }
    }
}

/// Replaces the per-application overrides; refused when one names a custom
/// mode that does not exist.
pub fn set_app_mode_overrides(settings: StyleSettings, overrides: Vec<AppModeOverride>) -> (r: Result<StyleSettings, String>)
    ensures
        first_dangling_override(overrides@, settings.custom_modes@) matches Some(id) ==> (r matches Err(e) && e@
            == "app_mode_override references unknown custom mode id '"@ + id + "'"@),
        first_dangling_override(overrides@, settings.custom_modes@) is None ==> (r matches Ok(s) && s.app_mode_overrides
            == overrides && s.default_mode == settings.default_mode && s.enabled_modes == settings.enabled_modes
            && s.custom_modes == settings.custom_modes),
{
    let mut i: usize = 0;
    while i < overrides.len()
        invariant
            i <= overrides@.len(),
            first_dangling_override(overrides@.take(i as int), settings.custom_modes@) is None,
        decreases overrides@.len() - i,
    {
        assert(overrides@.take(i + 1).drop_last() =~= overrides@.take(i as int));
        if let PolishMode::Custom(id) = &overrides[i].mode {
            if !custom_mode_exists(&settings.custom_modes, id.as_str()) {
                proof {
                    lemma_first_dangling_prefix(overrides@, settings.custom_modes@, i as int + 1);
                }
                return Err(quoted_message("app_mode_override references unknown custom mode id '", id.as_str(), "'"));
            }
        }
        i += 1;
    }
    assert(overrides@.take(i as int) =~= overrides@);
    let mut s = settings;
    s.app_mode_overrides = overrides;
    Ok(s)
}

proof fn lemma_first_dangling_prefix(o: Seq<AppModeOverride>, c: Seq<CustomMode>, n: int)
    requires
        0 < n <= o.len(),
        first_dangling_override(o.take(n), c) is Some,
    ensures
        first_dangling_override(o, c) == first_dangling_override(o.take(n), c),
    decreases o.len() - n,
{
    if n < o.len() {
        assert(o.take(n + 1).drop_last() =~= o.take(n));
        assert(first_dangling_override(o.take(n + 1), c) == first_dangling_override(o.take(n), c));
        lemma_first_dangling_prefix(o, c, n + 1);
    } else {
        assert(o.take(n) =~= o);
    }
}

/// Whether a mode names an existing custom mode or a built-in one.
pub open spec fn mode_known(m: (u8, Seq<char>), ids: Seq<Seq<char>>) -> bool {
    m.0 != 4 || ids.contains(m.1)
}

/// The default and every enabled mode name a built-in or an existing custom
/// mode.
pub open spec fn styles_consistent(default_mode: (u8, Seq<char>), enabled: Seq<(u8, Seq<char>)>, ids: Seq<Seq<char>>) -> bool {
    mode_known(default_mode, ids) && forall|i: int| 0 <= i < enabled.len() ==> mode_known(#[trigger] enabled[i], ids)
}

/// The ids of custom-mode views.
pub open spec fn view_ids(v: Seq<(Seq<char>, Seq<char>, Seq<char>)>) -> Seq<Seq<char>> {
    v.map_values(|t: (Seq<char>, Seq<char>, Seq<char>)| t.0)
}

/// Deleting a custom mode keeps the default and the enabled modes pointing
/// at modes that exist.
pub proof fn law_delete_keeps_styles_consistent(
    default_mode: (u8, Seq<char>),
    enabled: Seq<(u8, Seq<char>)>,
    custom: Seq<(Seq<char>, Seq<char>, Seq<char>)>,
    id: Seq<char>,
)
    requires
        styles_consistent(default_mode, enabled, view_ids(custom)),
    ensures
        styles_consistent(
            default_after_delete(default_mode, id),
            enabled.filter(other_than((4u8, id))),
            view_ids(custom.filter(|t: (Seq<char>, Seq<char>, Seq<char>)| t.0 != id)),
        ),
{
    let keep = |t: (Seq<char>, Seq<char>, Seq<char>)| t.0 != id;
    let on = other_than((4u8, id));
    let kept = custom.filter(keep);
    assert forall|x: Seq<char>| x != id && #[trigger] view_ids(custom).contains(x) implies view_ids(kept).contains(x) by {
        let i = choose|i: int| 0 <= i < view_ids(custom).len() && view_ids(custom)[i] == x;
        custom.lemma_filter_contains(keep, i);
        let j = choose|j: int| 0 <= j < kept.len() && kept[j] == custom[i];
        assert(view_ids(kept)[j] == x);
    }
    let e2 = enabled.filter(on);
    assert forall|i: int| 0 <= i < e2.len() implies mode_known(#[trigger] e2[i], view_ids(kept)) by {
        enabled.lemma_filter_pred(on, i);
        assert(e2.contains(e2[i]));
        enabled.lemma_filter_contains_rev(on, e2[i]);
        let k = choose|k: int| 0 <= k < enabled.len() && enabled[k] == e2[i];
        assert(mode_known(enabled[k], view_ids(custom)));
    }
}

/// Switching a style on (when it is known) or off keeps the enabled modes
/// pointing at modes that exist.
pub proof fn law_toggle_keeps_styles_consistent(
    default_mode: (u8, Seq<char>),
    enabled: Seq<(u8, Seq<char>)>,
    ids: Seq<Seq<char>>,
    mode: (u8, Seq<char>),
    on: bool,
)
    requires
        styles_consistent(default_mode, enabled, ids),
        on ==> mode_known(mode, ids),
    ensures
        styles_consistent(default_mode, toggled_modes(enabled, mode, on), ids),
{
    let t = toggled_modes(enabled, mode, on);
    if on {
        if !enabled.contains(mode) {
            assert forall|i: int| 0 <= i < t.len() implies mode_known(#[trigger] t[i], ids) by {
                if i < enabled.len() {
                    assert(t[i] == enabled[i]);
                }
            }
        }
    } else {
        let off = other_than(mode);
        assert forall|i: int| 0 <= i < t.len() implies mode_known(#[trigger] t[i], ids) by {
            assert(t.contains(t[i]));
            enabled.lemma_filter_contains_rev(off, t[i]);
            let k = choose|k: int| 0 <= k < enabled.len() && enabled[k] == t[i];
            assert(mode_known(enabled[k], ids));
        }
    }
}

} // verus!
