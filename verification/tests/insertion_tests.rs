use openless::insertion::{
    copy_fallback_status, insert_start, insert_status, restore_text, should_restore_clipboard, should_schedule_restore,
    unicode_key_events, unicode_keystrokes_status, utf16_units, ClipboardRestorePlan, ClipboardRestoreQueue,
    InsertStatus,
};

#[test]
fn restore_only_when_clipboard_still_holds_inserted_text() {
    assert!(should_restore_clipboard(Some("dictated text"), "dictated text"));
    assert!(!should_restore_clipboard(Some("user changed clipboard"), "dictated text"));
    assert!(!should_restore_clipboard(None, "dictated text"));
}

#[test]
fn insertion_statuses_follow_each_step() {
    assert_eq!(insert_start(""), Some(InsertStatus::CopiedFallback));
    assert_eq!(insert_start("x"), None);
    assert_eq!(insert_status(false, true, false), InsertStatus::Failed);
    assert_eq!(insert_status(true, false, false), InsertStatus::CopiedFallback);
    assert_eq!(insert_status(true, true, false), InsertStatus::PasteSent);
    assert_eq!(insert_status(true, true, true), InsertStatus::Inserted);
    assert_eq!(insert_status(true, false, true), InsertStatus::CopiedFallback);
    assert!(should_schedule_restore(true, true, false));
    assert!(!should_schedule_restore(true, true, true));
    assert!(!should_schedule_restore(false, true, false));
    assert!(!should_schedule_restore(true, false, false));
    assert_eq!(copy_fallback_status("", false), InsertStatus::CopiedFallback);
    assert_eq!(copy_fallback_status("x", true), InsertStatus::CopiedFallback);
    assert_eq!(copy_fallback_status("x", false), InsertStatus::Failed);
    assert_eq!(unicode_keystrokes_status(""), InsertStatus::CopiedFallback);
    assert_eq!(unicode_keystrokes_status("x"), InsertStatus::Inserted);
}

#[test]
fn consecutive_restores_keep_the_first_original_clipboard() {
    let mut queue = ClipboardRestoreQueue::new();
    let first = queue.schedule(ClipboardRestorePlan {
        inserted_text: "one".to_string(),
        previous_text: Some("user text".to_string()),
    });
    assert_eq!(first.restore_id, 1);
    assert!(queue.is_latest(1));
    let second = queue.schedule(ClipboardRestorePlan {
        inserted_text: "two".to_string(),
        previous_text: Some("one".to_string()),
    });
    assert_eq!(second.restore_id, 2);
    assert_eq!(second.original_text, Some("user text".to_string()));
    assert!(!queue.is_latest(1));
    assert!(queue.is_latest(2));
    queue.clear(1);
    assert!(queue.is_latest(2));
    queue.clear(2);
    assert!(!queue.is_latest(2));
    let third = queue.schedule(ClipboardRestorePlan { inserted_text: "three".to_string(), previous_text: None });
    assert_eq!(third.original_text, None);
}

#[test]
fn restore_writes_back_only_over_the_inserted_text() {
    let mut queue = ClipboardRestoreQueue::new();
    let ticket = queue.schedule(ClipboardRestorePlan {
        inserted_text: "dictated".to_string(),
        previous_text: Some("before".to_string()),
    });
    assert_eq!(restore_text(&ticket, Some("dictated")), Some("before".to_string()));
    assert_eq!(restore_text(&ticket, Some("copied later")), None);
    assert_eq!(restore_text(&ticket, None), None);
}

#[test]
fn text_is_typed_as_utf16_press_release_pairs() {
    assert_eq!(utf16_units("aé😀"), "aé😀".encode_utf16().collect::<Vec<u16>>());
    assert_eq!(unicode_key_events("a"), vec![(97, false), (97, true)]);
    let events = unicode_key_events("😀");
    assert_eq!(events, vec![(0xD83D, false), (0xD83D, true), (0xDE00, false), (0xDE00, true)]);
}
