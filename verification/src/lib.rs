//! Push-to-talk voice capture core: hotkey debouncing, capture session
//! lifecycle, mono mixdown, sample-rate conversion, WAV serialization, and
//! the coordinator state machine that drives a recording session from key
//! press to pasted text.
//!
//! Device I/O, networking, persistence and UI live outside this crate; the
//! logic here works on plain values and is verified.

pub mod audio;
pub mod coordinator;
pub mod hotkey;
pub mod num;
pub mod resample;
pub mod settings;
pub mod text;
pub mod transcriber;
pub mod wav;
