//! Verified core of the OpenLess dictation assistant: text shaping for the
//! Whisper prompt, release-feed parsing, hotkey validation, LLM fallback
//! bookkeeping, clipboard-insertion decisions and the Android overlay rules.

pub mod text;
pub mod whisper;
pub mod release;
pub mod android;
pub mod prefs;
pub mod commands;
pub mod hotkeys;
pub mod polish_flow;
pub mod insertion;
pub mod qa_hotkey;
pub mod external_url;
pub mod styles;
pub mod wav;
