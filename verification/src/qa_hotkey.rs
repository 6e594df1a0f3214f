//! The QA hotkey monitor of the mobile build, where global hotkeys are not
//! available: registration always fails, and rebinding is accepted as a
//! no-op.

use vstd::prelude::*;
use std::sync::mpsc::Sender;
use crate::prefs::ShortcutBinding;

verus! {

/// The channel end on which the desktop monitor reports presses.
#[verifier::external_type_specification]
#[verifier::external_body]
#[verifier::reject_recursive_types(T)]
pub struct ExSender<T>(Sender<T>);

/// An event of the QA hotkey.
#[derive(Clone, Copy, Debug, PartialEq, Eq, Structural)]
pub enum QaHotkeyEvent {
    Pressed,
}

/// Why the QA hotkey could not be registered.
#[derive(Debug, PartialEq, Eq)]
pub enum QaHotkeyError {
    RegisterFailed(String),
}

/// The prefix of the user-facing message of a failed registration.
pub open spec fn register_failed_prefix() -> Seq<char> {
    "注册 QA 快捷键失败: "@
}

impl QaHotkeyError {
    /// The user-facing message: `注册 QA 快捷键失败: ` and the reason.
    pub fn message(&self) -> (r: String)
        ensures
            self matches QaHotkeyError::RegisterFailed(reason) && r@ == register_failed_prefix() + reason@,
    {
        match self {
            QaHotkeyError::RegisterFailed(reason) => crate::text::concat_str("注册 QA 快捷键失败: ", reason.as_str()),
        }
    }
}

/// The QA hotkey monitor.
pub struct QaHotkeyMonitor;

impl QaHotkeyMonitor {
    /// Registering the QA hotkey fails on mobile.
    pub fn start(_binding: ShortcutBinding, _tx: Sender<QaHotkeyEvent>) -> (r: Result<Self, QaHotkeyError>)
        ensures
            r matches Err(QaHotkeyError::RegisterFailed(m)) && m@ == "QA hotkeys are not available on mobile"@,
    {
        broadcast use vstd::string::group_string_axioms;

        Err(QaHotkeyError::RegisterFailed("QA hotkeys are not available on mobile".to_string()))
    }

    /// Rebinding is accepted and has no effect on mobile.
    pub fn update_binding(&self, _binding: ShortcutBinding) -> (r: Result<(), QaHotkeyError>)
        ensures
            r is Ok,
    {
        Ok(())
    }
}

} // verus!
