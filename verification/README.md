# openless

The verified core of OpenLess, a dictation assistant: speech is recorded,
transcribed by a Whisper-compatible service, optionally polished or
translated by an LLM, and inserted at the cursor.

`src/` holds the rules, each with a Verus contract:

- `whisper` — the batch transcription client's buffer and request, the
  vocabulary prompt, and the cleanup of the reply (hallucinated segments,
  echoed prompt fragments);
- `polish_flow` — classification of provider errors, the model fallback
  chain, the memory of exhausted models, and the combined polish-and-translate
  reply;
- `hotkeys`, `prefs` — shortcut parsing, the legacy single-key triggers, and
  the rules that keep the shortcuts apart;
- `commands`, `styles` — credential and provider checks, URLs, local speech
  engines, and the style settings;
- `insertion` — insertion outcomes, the delayed clipboard restore, UTF-16 key
  events;
- `android`, `qa_hotkey`, `external_url`, `release`, `wav`, `text`.

`app/` is the desktop shell: HTTP requests, the clipboard and synthetic key
presses, the clock, the loop that runs a pass over the model chain (each
step decided by `FallbackRun::step`), and serialisable copies of the result
types.

`tests/` runs the library on concrete values.
