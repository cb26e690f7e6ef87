# hush

The decision core of Hush, a desktop meeting-transcription app, written in
Verus: the functions in `src/` carry contracts that Verus proves. A few
say nothing of their result because it lives outside the program's state:
the cancellation flag shared between threads (`download::CancelHandle`),
and the microphone permission request, which returns nothing
(`permissions::request_microphone_permission`).

Layout:

- `src/` — the verified library:
  - meeting decisions: `autostart`, `mic_state`, `classifier`, `call_end`,
    `session`, `partials`, `merge`, `pump_policy`, `speakers`;
  - transcription policy: `streaming` (sliding window), `tdt` (greedy
    token-and-duration decoding), `vocab`, `whisper_policy`, `model_files`,
    `audio_window`;
  - data and text: `catalog`, `download` and `digest` (SHA-256 checked
    downloads), `export` (text and CSV), `permissions`, `settings_codec`,
    `text`, `app_kind`.
- `tests/` — example-based tests of the library.
- `app/` — the I/O around it: HTTP download, audio sample buffers and
  resampling, engine adapters, storage traits, the meeting pump, wire types.

Laws the library guarantees are stated as `pub proof fn law_*` items next to
the functions they concern.
