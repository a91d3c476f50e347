use voxmagic::audio::{append_mono_samples, AudioError};
use voxmagic::coordinator::{AppMessage, AppState, Coordinator, Status, HISTORY_CAP};
use voxmagic::settings::AppSettings;

fn armed_coordinator(auto_paste: bool) -> Coordinator {
    Coordinator::new(AppSettings::new("key".to_string(), auto_paste, true))
}

#[test]
fn unarmed_coordinator_asks_for_setup() {
    let c = Coordinator::new(AppSettings::default());
    assert_eq!(c.state, AppState::Ready);
    assert!(c.show_settings);
    assert_eq!(c.status.describe(), "Setup Required");
}

#[test]
fn unarmed_press_is_swallowed() {
    let mut c = Coordinator::new(AppSettings::new(String::new(), true, true));
    c.show_settings = false;
    assert!(!c.on_hotkey_pressed());
    assert_eq!(c.state, AppState::Ready);
    assert!(c.show_settings);
}

#[test]
fn armed_press_starts_capture() {
    let mut c = armed_coordinator(true);
    assert_eq!(c.status.describe(), "Ready");
    assert!(c.on_hotkey_pressed());
    c.capture_started(44100, 2).unwrap();
    assert_eq!(c.state, AppState::Listening);
    assert_eq!(c.status.describe(), "Listening...");
    assert!(c.recording.is_recording);
    assert_eq!(c.recording.actual_sample_rate, 44100);
    assert_eq!(c.recording.actual_channels, 2);
    // A second press while listening is ignored.
    assert!(!c.on_hotkey_pressed());
    assert_eq!(c.state, AppState::Listening);
}

#[test]
fn device_failure_is_surfaced_and_state_stays_ready() {
    let mut c = armed_coordinator(true);
    assert!(c.on_hotkey_pressed());
    c.capture_failed(AudioError::NoInputDevice);
    assert_eq!(c.state, AppState::Ready);
    assert_eq!(c.status.describe(), "Mic Error: No input device available");
}

#[test]
fn empty_capture_still_returns_to_ready() {
    // Scenario: a tap so short that no samples arrive.
    let mut c = armed_coordinator(true);
    assert!(c.on_hotkey_pressed());
    c.capture_started(48000, 1).unwrap();
    let out = c.on_hotkey_released().expect("was listening");
    let err = out.expect_err("no audio was captured");
    assert!(matches!(err, AudioError::EncodingError(_)));
    assert_eq!(err.message(), "Failed to encode WAV: No audio captured");
    assert_eq!(c.state, AppState::Transcribing);
    // The worker reports the failure; the coordinator is ready again.
    c.on_message(AppMessage::TranscriptionError(err.message()));
    assert_eq!(c.state, AppState::Ready);
    assert_eq!(
        c.status.describe(),
        "Error: Failed to encode WAV: No audio captured"
    );
    assert_eq!(c.history_len(), 0);
}

#[test]
fn captured_audio_yields_artifact_on_release() {
    let mut c = armed_coordinator(true);
    assert!(c.on_hotkey_pressed());
    c.capture_started(32000, 1).unwrap();
    append_mono_samples(&mut c.recording, &[0, 10, 20, 30]);
    let bytes = c
        .on_hotkey_released()
        .expect("was listening")
        .expect("artifact");
    assert_eq!(voxmagic::wav::wav_decode(&bytes).unwrap(), vec![0, 20]);
    assert_eq!(c.state, AppState::Transcribing);
    assert_eq!(c.status.describe(), "Refining...");
    assert!(!c.recording.is_recording);
    // Release while not listening is a no-op.
    assert!(c.on_hotkey_released().is_none());
}

#[test]
fn completion_trims_and_records_and_pastes() {
    let mut c = armed_coordinator(true);
    let paste = c.on_message(AppMessage::TranscriptionComplete(
        "  hello world  ".to_string(),
    ));
    assert_eq!(paste.as_deref(), Some("hello world"));
    assert_eq!(c.history_len(), 1);
    assert_eq!(c.history_entry(0), "hello world");
    assert_eq!(c.state, AppState::Ready);
    assert_eq!(c.status.describe(), "Success");
}

#[test]
fn completion_without_auto_paste_records_only() {
    let mut c = armed_coordinator(false);
    let paste = c.on_message(AppMessage::TranscriptionComplete("hi".to_string()));
    assert!(paste.is_none());
    assert_eq!(c.history_len(), 1);
    assert_eq!(c.history_entry(0), "hi");
}

#[test]
fn blank_completion_changes_nothing_but_status() {
    let mut c = armed_coordinator(true);
    let paste = c.on_message(AppMessage::TranscriptionComplete("   \t ".to_string()));
    assert!(paste.is_none());
    assert_eq!(c.history_len(), 0);
    assert_eq!(c.state, AppState::Ready);
    assert_eq!(c.status.describe(), "No speech detected");
}

#[test]
fn failure_message_is_surfaced_and_history_untouched() {
    let mut c = armed_coordinator(true);
    c.on_message(AppMessage::TranscriptionComplete("first".to_string()));
    let paste = c.on_message(AppMessage::TranscriptionError("network down".to_string()));
    assert!(paste.is_none());
    assert_eq!(c.state, AppState::Ready);
    assert_eq!(c.status.describe(), "Error: network down");
    assert_eq!(c.history_len(), 1);
    assert_eq!(c.history_entry(0), "first");
}

#[test]
fn start_message_marks_transcribing() {
    let mut c = armed_coordinator(true);
    c.on_message(AppMessage::TranscriptionStart);
    assert_eq!(c.state, AppState::Transcribing);
}

#[test]
fn history_is_capped_and_evicts_oldest() {
    let mut c = armed_coordinator(false);
    for i in 1..=(HISTORY_CAP + 2) {
        c.on_message(AppMessage::TranscriptionComplete(format!("entry {}", i)));
        assert!(c.history_len() <= HISTORY_CAP);
    }
    assert_eq!(c.history_len(), HISTORY_CAP);
    assert_eq!(c.history_entry(0), "entry 12");
    assert_eq!(c.history_entry(HISTORY_CAP - 1), "entry 3");
}

#[test]
fn clear_history_empties_it() {
    let mut c = armed_coordinator(false);
    c.on_message(AppMessage::TranscriptionComplete("something".to_string()));
    assert_eq!(c.history_len(), 1);
    c.clear_history();
    assert_eq!(c.history_len(), 0);
}

#[test]
fn status_lines_render_for_every_variant() {
    assert_eq!(Status::SetupRequired.describe(), "Setup Required");
    assert_eq!(Status::Ready.describe(), "Ready");
    assert_eq!(Status::Listening.describe(), "Listening...");
    assert_eq!(Status::Refining.describe(), "Refining...");
    assert_eq!(Status::Success.describe(), "Success");
    assert_eq!(Status::NoSpeech.describe(), "No speech detected");
    assert_eq!(Status::MicError("m".to_string()).describe(), "Mic Error: m");
    assert_eq!(Status::Error("e".to_string()).describe(), "Error: e");
}
