//! Decisions of text insertion at the cursor: what an insertion attempt
//! reports at each step, when the user's clipboard is put back after a
//! simulated paste, and the key events that type text out as UTF-16.
//!
//! The clipboard and the synthetic key presses themselves are work on the
//! desktop and are carried out by the caller, which hands each outcome back
//! to the functions here.

use vstd::prelude::*;
use crate::text::chars_of;

verus! {

/// How an insertion ended.
#[derive(Debug, Clone, Copy, PartialEq, Eq, Structural)]
pub enum InsertStatus {
    /// The text was inserted at the cursor.
    Inserted,
    /// The paste shortcut was sent; whether the target took it is unknown.
    PasteSent,
    /// The text is only on the clipboard, for the user to paste.
    CopiedFallback,
    /// Not even the clipboard could be written.
    Failed,
}

/// The first step of an insertion: nothing to do for empty text (reported
/// as a clipboard fallback), else write the clipboard.
pub fn insert_start(text: &str) -> (r: Option<InsertStatus>)
    ensures
        text@.len() == 0 ==> r == Some(InsertStatus::CopiedFallback),
        text@.len() > 0 ==> r is None,
{
    if text.is_empty() {
        Some(InsertStatus::CopiedFallback)
    } else {
        None
    }
}

/// What an insertion reports once the clipboard write and the simulated
/// paste have been tried: a failed clipboard write fails the insertion (and
/// no paste is sent), a failed paste leaves the text on the clipboard; a sent
/// paste counts as inserted on macOS, where the paste goes through the
/// accessibility-checked event path, and elsewhere only as a sent shortcut,
/// since the target may not have taken it.
pub fn insert_status(clipboard_written: bool, paste_sent: bool, on_macos: bool) -> (r: InsertStatus)
    ensures
        !clipboard_written ==> r == InsertStatus::Failed,
        clipboard_written && !paste_sent ==> r == InsertStatus::CopiedFallback,
        clipboard_written && paste_sent && on_macos ==> r == InsertStatus::Inserted,
        clipboard_written && paste_sent && !on_macos ==> r == InsertStatus::PasteSent,
{
    if !clipboard_written {
        InsertStatus::Failed
    } else if !paste_sent {
        InsertStatus::CopiedFallback
    } else if on_macos {
        InsertStatus::Inserted
    } else {
        InsertStatus::PasteSent
    }
}

/// Whether an insertion schedules the restore of the user's clipboard: only
/// off macOS, after a sent paste, and when asked to.
pub fn should_schedule_restore(paste_sent: bool, restore_clipboard_after_paste: bool, on_macos: bool) -> (r: bool)
    ensures
        r == (paste_sent && restore_clipboard_after_paste && !on_macos),
{
    paste_sent && restore_clipboard_after_paste && !on_macos
}

/// What copying without a paste reports: empty text and a successful copy
/// are clipboard fallbacks, a failed copy a failure.
pub fn copy_fallback_status(text: &str, copied: bool) -> (r: InsertStatus)
    ensures
        text@.len() == 0 || copied ==> r == InsertStatus::CopiedFallback,
        text@.len() > 0 && !copied ==> r == InsertStatus::Failed,
{
    if text.is_empty() {
        return InsertStatus::CopiedFallback;
    }
    if copied {
        InsertStatus::CopiedFallback
    } else {
        InsertStatus::Failed
    }
}

/// What the Unicode-keystroke path reports: it routes non-empty text through
/// the clipboard paste and reports it inserted whatever the paste reported,
/// so that the caller does not paste the text a second time.
pub fn unicode_keystrokes_status(text: &str) -> (r: InsertStatus)
    ensures
        text@.len() == 0 ==> r == InsertStatus::CopiedFallback,
        text@.len() > 0 ==> r == InsertStatus::Inserted,
{
    if text.is_empty() {
        InsertStatus::CopiedFallback
    } else {
        InsertStatus::Inserted
    }
}

/// The clipboard is put back only when it still holds the inserted text:
/// anything the user copied since is left alone.
pub fn should_restore_clipboard(current_text: Option<&str>, inserted_text: &str) -> (r: bool)
    ensures
        r == (current_text matches Some(c) && c@ == inserted_text@),
{
    match current_text {
        Some(current) => crate::text::str_is(current, inserted_text),
        None => false,
    }
}

/// What an insertion put on the clipboard, and what was there before (none
/// when it could not be read).
pub struct ClipboardRestorePlan {
    pub inserted_text: String,
    pub previous_text: Option<String>,
}

/// A restore waiting for its delay: its id, the inserted text it checks for,
/// and the text it puts back.
pub struct ScheduledRestore {
    pub restore_id: u64,
    pub inserted_text: String,
    pub original_text: Option<String>,
}

/// The restore that is still to run: the latest id, and the clipboard text
/// from before the first of a run of insertions.
pub struct PendingClipboardRestore {
    pub latest_restore_id: u64,
    pub original_text: Option<String>,
}

/// The bookkeeping of delayed clipboard restores.
pub struct ClipboardRestoreQueue {
    next_restore_id: u64,
    pending: Option<PendingClipboardRestore>,
}

/// The model of the queue: the next id, and the pending restore's id and
/// original text.
pub struct RestoreQueueModel {
    pub next_restore_id: u64,
    pub pending: Option<(u64, Option<Seq<char>>)>,
}

/// The view of an optional string.
pub open spec fn opt_text(s: Option<String>) -> Option<Seq<char>> {
    match s {
        Some(t) => Some(t@),
        None => None,
    }
}

impl View for ClipboardRestoreQueue {
    type V = RestoreQueueModel;

    closed spec fn view(&self) -> RestoreQueueModel {
        RestoreQueueModel {
            next_restore_id: self.next_restore_id,
            pending: match self.pending {
                Some(p) => Some((p.latest_restore_id, opt_text(p.original_text))),
                None => None,
            },
        }
    }
}

/// The queue is well formed when the pending restore, if any, has the last
/// id handed out.
pub open spec fn queue_wf(m: RestoreQueueModel) -> bool {
    m.pending matches Some(p) ==> (p.0 as int + 1) % 0x1_0000_0000_0000_0000 == m.next_restore_id as int
}

/// Whether `id` is the pending restore.
pub open spec fn is_latest_spec(m: RestoreQueueModel, id: u64) -> bool {
    m.pending matches Some(p) && p.0 == id
}

impl ClipboardRestoreQueue {
    /// No restore pending; ids start at 1.
    pub fn new() -> (r: Self)
        ensures
            r@.next_restore_id == 1,
            r@.pending is None,
            queue_wf(r@),
    {
        ClipboardRestoreQueue { next_restore_id: 1, pending: None }
    }

    /// Schedules the restore of `plan` under a fresh id. Within a run of
    /// insertions whose restores have not run yet, the text put back is the
    /// clipboard from before the first of them.
    pub fn schedule(&mut self, plan: ClipboardRestorePlan) -> (r: ScheduledRestore)
        requires
            queue_wf(old(self)@),
        ensures
            queue_wf(final(self)@),
            r.restore_id == old(self)@.next_restore_id,
            final(self)@.next_restore_id == (old(self)@.next_restore_id as int + 1) % 0x1_0000_0000_0000_0000,
            r.inserted_text@ == plan.inserted_text@,
            opt_text(r.original_text) == match old(self)@.pending {
                Some(p) => p.1,
                None => opt_text(plan.previous_text),
            },
            final(self)@.pending == Some((r.restore_id, opt_text(r.original_text))),
    {
        let restore_id = self.next_restore_id;
        self.next_restore_id = self.next_restore_id.wrapping_add(1);
        let original: Option<String> = match &self.pending {
            Some(batch) => match &batch.original_text {
                Some(t) => Some(t.clone()),
                None => None,
            },
            None => plan.previous_text,
        };
        let kept: Option<String> = match &original {
            Some(t) => Some(t.clone()),
            None => None,
        };
        self.pending = Some(PendingClipboardRestore { latest_restore_id: restore_id, original_text: kept });
        ScheduledRestore { restore_id, inserted_text: plan.inserted_text, original_text: original }
    }

    /// Whether `restore_id` is still the pending restore (a later insertion
    /// supersedes an earlier restore).
    pub fn is_latest(&self, restore_id: u64) -> (r: bool)
        ensures
            r == is_latest_spec(self@, restore_id),
    {
        match &self.pending {
            Some(batch) => batch.latest_restore_id == restore_id,
            None => false,
        }
    }

    /// Forgets the pending restore if it is `restore_id`; a superseded id
    /// leaves the newer restore in place.
    pub fn clear(&mut self, restore_id: u64)
        ensures
            final(self)@.next_restore_id == old(self)@.next_restore_id,
            is_latest_spec(old(self)@, restore_id) ==> final(self)@.pending is None,
            !is_latest_spec(old(self)@, restore_id) ==> final(self)@ == old(self)@,
            queue_wf(old(self)@) ==> queue_wf(final(self)@),
    {
        if self.is_latest(restore_id) {
            self.pending = None;
        }
    }
}

/// The text to write back once the delay of `ticket` is over and the
/// clipboard reads `current_text`: the original text, when the clipboard
/// still holds the inserted text and there was an original text.
pub fn restore_text(ticket: &ScheduledRestore, current_text: Option<&str>) -> (r: Option<String>)
    ensures
        (current_text matches Some(c) && c@ == ticket.inserted_text@) ==> opt_text(r) == opt_text(
            ticket.original_text,
        ),
        !(current_text matches Some(c) && c@ == ticket.inserted_text@) ==> r is None,
{
    if should_restore_clipboard(current_text, ticket.inserted_text.as_str()) {
        match &ticket.original_text {
            Some(t) => Some(t.clone()),
            None => None,
        }
    } else {
        None
    }
}

/// Scheduling a restore makes it the pending one and supersedes the one
/// before it.
pub proof fn law_new_restore_supersedes(m: RestoreQueueModel, id: u64, original: Option<Seq<char>>, n: RestoreQueueModel)
    requires
        queue_wf(m),
        id == m.next_restore_id,
        n.next_restore_id == (m.next_restore_id as int + 1) % 0x1_0000_0000_0000_0000,
        n.pending == Some((id, original)),
    ensures
        is_latest_spec(n, id),
        m.pending matches Some(p) ==> !is_latest_spec(n, p.0),
        queue_wf(n),
{
}

/// The UTF-16 code units of one character.
pub open spec fn utf16_of_char(c: char) -> Seq<u16> {
    let v = c as u32;
    if v < 0x10000 {
        seq![v as u16]
    } else {
        seq![(0xD800 + (v - 0x10000) / 1024) as u16, (0xDC00 + (v - 0x10000) % 1024) as u16]
    }
}

/// The UTF-16 code units of a text (`str::encode_utf16`).
pub open spec fn utf16_of(s: Seq<char>) -> Seq<u16>
    decreases s.len(),
{
    if s.len() == 0 {
        Seq::empty()
    } else {
        utf16_of(s.drop_last()) + utf16_of_char(s.last())
    }
}

/// The key events that type `units` out: a press then a release of each code
/// unit, in order.
pub open spec fn key_events_of(units: Seq<u16>) -> Seq<(u16, bool)>
    decreases units.len(),
{
    if units.len() == 0 {
        Seq::empty()
    } else {
        key_events_of(units.drop_last()) + seq![(units.last(), false), (units.last(), true)]
    }
}

fn push_char_units(out: &mut Vec<u16>, c: char)
    ensures
        final(out)@ == old(out)@ + utf16_of_char(c),
{
    let v = c as u32;
    if v < 0x10000 {
        out.push(v as u16);
    } else {
        let w = v - 0x10000;
        assert(w < 0x100000) by {
            assert(v <= 0x10FFFF);
        }
        out.push((0xD800 + w / 1024) as u16);
        out.push((0xDC00 + w % 1024) as u16);
    }
}

/// The UTF-16 code units of `text`.
pub fn utf16_units(text: &str) -> (r: Vec<u16>)
    ensures
        r@ == utf16_of(text@),
{
    let chars = chars_of(text);
    let mut out: Vec<u16> = Vec::new();
    let mut i: usize = 0;
    while i < chars.len()
        invariant
            i <= chars@.len(),
            chars@ == text@,
            out@ == utf16_of(chars@.take(i as int)),
        decreases chars@.len() - i,
    {
        assert(chars@.take(i + 1).drop_last() =~= chars@.take(i as int));
        push_char_units(&mut out, chars[i]);
        i += 1;
    }
    assert(chars@.take(i as int) =~= chars@);
    out
}

/// The key events, as `(code unit, key up)`, that type `text` out one UTF-16
/// code unit at a time.
pub fn unicode_key_events(text: &str) -> (r: Vec<(u16, bool)>)
    ensures
        r@ == key_events_of(utf16_of(text@)),
{
    let units = utf16_units(text);
    let mut out: Vec<(u16, bool)> = Vec::new();
    let mut i: usize = 0;
    while i < units.len()
        invariant
            i <= units@.len(),
            out@ == key_events_of(units@.take(i as int)),
        decreases units@.len() - i,
    {
        assert(units@.take(i + 1).drop_last() =~= units@.take(i as int));
        out.push((units[i], false));
        out.push((units[i], true));
        i += 1;
        assert(out@ =~= key_events_of(units@.take(i as int)));
    }
    assert(units@.take(i as int) =~= units@);
    out
}

} // verus!
