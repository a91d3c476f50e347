//! The coordinator: the application state machine driving one recording
//! session through `Ready -> Listening -> Transcribing -> Pasting -> Ready`.
//! It consumes hotkey edges, owns the capture session and the bounded
//! history of finished transcriptions, and tells its caller which outside
//! action (opening a device, dispatching an artifact, pasting text) to
//! perform next; the actions themselves happen outside this crate.

use crate::audio::{start_recording, stop_recording, AudioError, RecordingState};
use crate::audio::encode_outcome;
use crate::settings::AppSettings;
use crate::text::{trim_text, trimmed};
use vstd::prelude::*;
use vstd::string::*;

verus! {

/// The most entries the history keeps; the oldest is evicted beyond it.
pub const HISTORY_CAP: usize = 10;

#[derive(Clone, Copy, PartialEq, Eq, Structural, Debug)]
pub enum AppState {
    Ready,
    Listening,
    Transcribing,
    Pasting,
}

/// What the per-session background worker reports back, in order: that
/// transcription started, then either the recognized text or a failure.
pub enum AppMessage {
    TranscriptionStart,
    TranscriptionComplete(String),
    TranscriptionError(String),
}

/// The user-visible outcome of the latest step.
pub enum Status {
    SetupRequired,
    Ready,
    Listening,
    Refining,
    Success,
    NoSpeech,
    MicError(String),
    Error(String),
}

impl Status {
    /// The status line shown to the user.
    pub open spec fn spec_describe(self) -> Seq<char> {
        match self {
            Status::SetupRequired => "Setup Required"@,
            Status::Ready => "Ready"@,
            Status::Listening => "Listening..."@,
            Status::Refining => "Refining..."@,
            Status::Success => "Success"@,
            Status::NoSpeech => "No speech detected"@,
            Status::MicError(m) => "Mic Error: "@ + m@,
            Status::Error(m) => "Error: "@ + m@,
        }
    }

    /// Renders the status line.
    pub fn describe(&self) -> (r: String)
        ensures
            r@ == self.spec_describe(),
    {
        match self {
            Status::SetupRequired => String::from_str("Setup Required"),
            Status::Ready => String::from_str("Ready"),
            Status::Listening => String::from_str("Listening..."),
            Status::Refining => String::from_str("Refining..."),
            Status::Success => String::from_str("Success"),
            Status::NoSpeech => String::from_str("No speech detected"),
            Status::MicError(m) => String::from_str("Mic Error: ").concat(m.as_str()),
            Status::Error(m) => String::from_str("Error: ").concat(m.as_str()),
        }
    }
}

/// A finished transcription prepended to the history, the oldest entry
/// dropped once the cap is passed.
pub open spec fn history_push(h: Seq<String>, x: String) -> Seq<String> {
    let grown = seq![x] + h;
    if grown.len() <= HISTORY_CAP as nat {
        grown
    } else {
        grown.take(HISTORY_CAP as int)
    }
}

/// What the stop path hands the background worker for a session that was
/// listening: the encoded artifact, or the error that kept one from being
/// made.
pub open spec fn stop_outcome(rec: RecordingState, r: Result<Vec<u8>, AudioError>) -> bool
    recommends
        rec.is_recording,
{
    if rec.samples@.len() == 0 {
        r matches Err(e) && e matches AudioError::EncodingError(m) && m@ == "No audio captured"@
    } else {
        encode_outcome(rec.samples@, rec.actual_sample_rate as int, r)
    }
}

pub struct Coordinator {
    pub state: AppState,
    pub history: Vec<String>,
    pub status: Status,
    pub settings: AppSettings,
    pub recording: RecordingState,
    pub show_settings: bool,
}

impl Coordinator {
    /// The standing invariant: the history respects its cap, the capture
    /// session's format is usable, and the session is live exactly while the
    /// coordinator listens.
    pub open spec fn wf(self) -> bool {
        &&& self.history@.len() <= HISTORY_CAP as int
        &&& self.recording.wf()
        &&& (self.state is Listening <==> self.recording.is_recording)
    }

    /// Armed means a credential is configured; only then may a press start
    /// a capture.
    pub open spec fn armed(self) -> bool {
        self.settings.groq_api_key@.len() > 0
    }

    /// A fresh coordinator: ready, with an empty history and an idle
    /// session; without a credential it asks for setup instead.
    pub fn new(settings: AppSettings) -> (c: Coordinator)
        ensures
            c.wf(),
            c.state is Ready,
            c.history@ == Seq::<String>::empty(),
            c.settings == settings,
            !c.recording.is_recording,
            c.recording.samples@ == Seq::<i16>::empty(),
            settings.groq_api_key@.len() == 0 ==> c.status is SetupRequired && c.show_settings,
            settings.groq_api_key@.len() > 0 ==> c.status is Ready && !c.show_settings,
    {
        let unarmed = settings.groq_api_key.as_str().is_empty();
        Coordinator {
            state: AppState::Ready,
            history: Vec::new(),
            status: if unarmed {
                Status::SetupRequired
            } else {
                Status::Ready
            },
            settings,
            recording: RecordingState::new(),
            show_settings: unarmed,
        }
    }

    /// A press edge: capture may start only from `Ready` and only armed;
    /// an unarmed press surfaces the settings prompt instead.
    pub fn on_hotkey_pressed(&mut self) -> (start: bool)
        requires
            old(self).wf(),
        ensures
            final(self).wf(),
            start == (old(self).state is Ready && old(self).armed()),
            start ==> *final(self) == *old(self),
            !start ==> final(self).state == old(self).state && final(self).history
                == old(self).history && final(self).status == old(self).status && final(self).settings == old(self).settings && final(self).recording == old(self).recording
                && final(self).show_settings == (old(self).show_settings || !old(self).armed()),
    {
        let unarmed = self.settings.groq_api_key.as_str().is_empty();
        if !(matches!(self.state, AppState::Ready)) || unarmed {
            if unarmed {
                self.show_settings = true;
            }
            return false;
        }
        true
    }

    /// The device opened and negotiated its native format: open the session
    /// and listen, or surface the failure and stay ready.
    pub fn capture_started(&mut self, native_rate: u32, native_channels: u16) -> (r: Result<
        (),
        AudioError,
    >)
        requires
            old(self).wf(),
            old(self).state is Ready,
        ensures
            final(self).wf(),
            final(self).history == old(self).history,
            final(self).settings == old(self).settings,
            final(self).show_settings == old(self).show_settings,
            native_rate >= 1 && native_channels >= 1 ==> r is Ok && final(self).state is Listening
                && final(self).status is Listening && final(self).recording.is_recording && final(self).recording.samples@ == Seq::<i16>::empty() && final(self).recording.actual_sample_rate
                == native_rate && final(self).recording.actual_channels == native_channels,
            native_rate == 0 || native_channels == 0 ==> (r matches Err(e) && e matches
            AudioError::ConfigError(_) && (final(self).status matches Status::MicError(m) && m@
                == e.spec_message()) && final(self).state is Ready && final(self).recording
                == old(self).recording),
    {
        match start_recording(&mut self.recording, native_rate, native_channels) {
            Ok(u) => {
                self.state = AppState::Listening;
                self.status = Status::Listening;
                Ok(u)
            },
            Err(e) => {
                self.status = Status::MicError(e.message());
                Err(e)
            },
        }
    }

    /// The device could not be opened at all: surface the failure and stay
    /// ready.
    pub fn capture_failed(&mut self, error: AudioError)
        requires
            old(self).wf(),
            old(self).state is Ready,
        ensures
            final(self).wf(),
            final(self).state == old(self).state,
            final(self).history == old(self).history,
            final(self).settings == old(self).settings,
            final(self).recording == old(self).recording,
            final(self).show_settings == old(self).show_settings,
            final(self).status matches Status::MicError(m) && m@ == error.spec_message(),
    {
        self.status = Status::MicError(error.message());
    }

    /// A release edge: ignored unless listening; otherwise the session is
    /// closed and whatever the stop path yielded — artifact or error — is
    /// handed out for the background worker, while the coordinator moves on
    /// to transcribing.
    pub fn on_hotkey_released(&mut self) -> (out: Option<Result<Vec<u8>, AudioError>>)
        requires
            old(self).wf(),
        ensures
            final(self).wf(),
            !(old(self).state is Listening) ==> out is None && *final(self) == *old(self),
            old(self).state is Listening ==> final(self).state is Transcribing && final(self).status
                is Refining && final(self).history == old(self).history && final(self).settings
                == old(self).settings && final(self).show_settings == old(self).show_settings
                && !final(self).recording.is_recording && final(self).recording.samples
                == old(self).recording.samples && final(self).recording.actual_sample_rate
                == old(self).recording.actual_sample_rate && final(self).recording.actual_channels
                == old(self).recording.actual_channels && (out matches Some(r) && stop_outcome(
                old(self).recording,
                r,
            )),
    {
        if !(matches!(self.state, AppState::Listening)) {
            return None;
        }
        self.state = AppState::Transcribing;
        self.status = Status::Refining;
        let r = stop_recording(&mut self.recording);
        Some(r)
    }

    /// Applies a finished transcription whose text is already trimmed:
    /// blank text changes nothing but the status; anything else enters the
    /// history (evicting the oldest entry past the cap) and is handed back
    /// for pasting when auto-paste is on. Either way the coordinator is
    /// ready again.
    pub fn complete_transcription(&mut self, cleaned: String) -> (paste: Option<String>)
        requires
            old(self).wf(),
            !(old(self).state is Listening),
        ensures
            final(self).wf(),
            final(self).state is Ready,
            final(self).settings == old(self).settings,
            final(self).recording == old(self).recording,
            final(self).show_settings == old(self).show_settings,
            cleaned@.len() == 0 ==> final(self).status is NoSpeech && final(self).history
                == old(self).history && paste is None,
            cleaned@.len() > 0 ==> final(self).status is Success && final(self).history@
                == history_push(old(self).history@, cleaned) && (old(self).settings.auto_paste
                ==> paste == Some(cleaned)) && (!old(self).settings.auto_paste ==> paste is None),
    {
        if cleaned.as_str().is_empty() {
            self.status = Status::NoSpeech;
            self.state = AppState::Ready;
            return None;
        }
        self.history.insert(0, cleaned.clone());
        if self.history.len() > HISTORY_CAP {
            self.history.pop();
        }
        proof {
            assert(self.history@ =~= history_push(old(self).history@, cleaned));
        }
        let paste = if self.settings.auto_paste {
            Some(cleaned)
        } else {
            None
        };
        self.status = Status::Success;
        self.state = AppState::Ready;
        paste
    }

    /// Drains one worker message: a start notice keeps the coordinator
    /// transcribing; recognized text is trimmed and applied; a failure is
    /// surfaced and the coordinator is ready again.
    pub fn on_message(&mut self, msg: AppMessage) -> (paste: Option<String>)
        requires
            old(self).wf(),
            !(old(self).state is Listening),
        ensures
            final(self).wf(),
            final(self).settings == old(self).settings,
            final(self).recording == old(self).recording,
            final(self).show_settings == old(self).show_settings,
            msg is TranscriptionStart ==> final(self).state is Transcribing && final(self).history
                == old(self).history && final(self).status == old(self).status && paste is None,
            msg matches AppMessage::TranscriptionError(e) ==> ((final(self).status matches
                Status::Error(m) && m == e) && final(self).state is Ready && final(self).history
                == old(self).history && paste is None),
            msg matches AppMessage::TranscriptionComplete(text) ==> final(self).state is Ready && (
            trimmed(text@).len() == 0 ==> final(self).status is NoSpeech && final(self).history
                == old(self).history && paste is None) && (trimmed(text@).len() > 0 ==> final(self).status is Success && final(self).history@.len() as int == (
            if old(self).history@.len() + 1 <= HISTORY_CAP as int {
                old(self).history@.len() as int + 1
            } else {
                HISTORY_CAP as int
            }) && final(self).history@[0]@ == trimmed(text@) && (forall|i: int|
                1 <= i < final(self).history@.len() ==> final(self).history@[i] == old(self).history@[i - 1]) && (old(self).settings.auto_paste ==> (paste matches Some(p)
                && p@ == trimmed(text@))) && (!old(self).settings.auto_paste ==> paste is None)),
    {
        match msg {
            AppMessage::TranscriptionStart => {
                self.state = AppState::Transcribing;
                None
            },
            AppMessage::TranscriptionComplete(text) => {
                let cleaned = trim_text(text.as_str());
                self.complete_transcription(cleaned)
            },
            AppMessage::TranscriptionError(e) => {
                self.status = Status::Error(e);
                self.state = AppState::Ready;
                None
            },
        }
    }

    /// Reads an entry of the history, most recent first.
    pub fn history_entry(&self, i: usize) -> (r: &String)
        requires
            i < self.history@.len(),
        ensures
            r == self.history@[i as int],
    {
        &self.history[i]
    }

    /// How many transcriptions the history holds.
    pub fn history_len(&self) -> (n: usize)
        ensures
            n == self.history@.len(),
    {
        self.history.len()
    }

    /// Empties the history.
    pub fn clear_history(&mut self)
        requires
            old(self).wf(),
        ensures
            final(self).wf(),
            final(self).history@ == Seq::<String>::empty(),
            final(self).state == old(self).state,
            final(self).status == old(self).status,
            final(self).settings == old(self).settings,
            final(self).recording == old(self).recording,
            final(self).show_settings == old(self).show_settings,
    {
        self.history.clear();
    }
}

} // verus!
