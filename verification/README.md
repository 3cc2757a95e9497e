# voice_dictation

The core of a push-to-talk dictation tool (hold a hotkey, speak, and the
transcribed text is typed into the focused window), written in Verus with its
behaviour stated in contracts and proved.

## Layout

- `src/` — the verified library.
  - `text.rs`: character helpers (trimming by the Unicode `White_Space`
    property, building strings from characters).
  - `dictionary.rs`: the custom dictionary. Literal rules are replaced by a
    verified left-to-right replacement; case-insensitive rules go through the
    `regex` crate. Laws: rules compose in order, inactive rules can be dropped,
    a literal rule leaves text without its pattern unchanged.
  - `audio.rs`: down-mixing of interleaved frames, WAV encoding, the audio
    thread's decisions (start/stop refusal, capture bookkeeping, one answer per
    request) and the recorder handle that talks to it over channels.
  - `inject.rs`: which delivery method a text gets (nothing for empty text,
    the clipboard for long text or unless keystrokes are asked for).
  - `settings.rs`: settings, their defaults, language and prompt choice.
  - `pipeline.rs`: one dictation as a state machine: discarding short or
    silent recordings, the auto-mode fallback from local to cloud, simplified
    Chinese normalisation and dictionary rewriting, history and injection.
  - `transcribe/`: the model catalogue, download registry and progress
    (`model.rs`), the cloud request and its retry policy (`cloud.rs`), and the
    local model cache (`local.rs`).
  - `history.rs`, `shell.rs`: history query parameters, tray menu and launch
    decisions.
- `tests/` — tests run against the compiled library.
- `app/` — the desktop program around the library: audio capture, the
  recogniser calls, the SQLite history, clipboard and keyboard injection, and
  the Tauri shell.
