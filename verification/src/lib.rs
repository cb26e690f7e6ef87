//! Hush meeting-transcription core: the decision logic, state machines and
//! text handling of the desktop app, verified with Verus.

pub mod app_kind;
pub mod audio_window;
pub mod autostart;
pub mod call_end;
pub mod catalog;
pub mod classifier;
pub mod digest;
pub mod download;
pub mod export;
pub mod merge;
pub mod model_files;
pub mod mic_state;
pub mod partials;
pub mod permissions;
pub mod pump_policy;
pub mod session;
pub mod settings_codec;
pub mod speakers;
pub mod streaming;
pub mod tdt;
pub mod text;
pub mod vocab;
pub mod whisper_policy;
