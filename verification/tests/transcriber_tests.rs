use voxmagic::settings::AppSettings;
use voxmagic::transcriber::{
    check_api_key, choose_refined, classify_api_failure, resolve_refinement, should_refine,
    TranscriptionError, TranscriptionResponse,
};

#[test]
fn blank_api_key_is_rejected_before_any_request() {
    for key in ["", "   ", " \t\n "] {
        let err = check_api_key(key).expect_err("blank key");
        assert!(matches!(err, TranscriptionError::ApiError(_)));
        assert_eq!(
            err.message(),
            "API error: API Key is missing. Please set it in Settings."
        );
    }
    assert!(check_api_key("sk-something").is_ok());
    assert!(check_api_key("  padded  ").is_ok());
}

#[test]
fn api_failure_prefers_the_parsed_service_message() {
    let e = classify_api_failure(Some("quota exceeded".to_string()), "HTTP 429: ...".to_string());
    match e {
        TranscriptionError::ApiError(m) => assert_eq!(m, "quota exceeded"),
        _ => panic!("wrong kind"),
    }
    let e2 = classify_api_failure(None, "HTTP 500: boom".to_string());
    match e2 {
        TranscriptionError::ApiError(m) => assert_eq!(m, "HTTP 500: boom"),
        _ => panic!("wrong kind"),
    }
}

#[test]
fn only_non_blank_text_is_refined() {
    let blank = TranscriptionResponse {
        text: "  \t".to_string(),
        language: None,
    };
    assert!(!should_refine(&blank));
    let spoken = TranscriptionResponse {
        text: " words ".to_string(),
        language: Some("en".to_string()),
    };
    assert!(should_refine(&spoken));
}

#[test]
fn refinement_success_replaces_text_and_keeps_language() {
    let raw = TranscriptionResponse {
        text: "helo wrld".to_string(),
        language: Some("en".to_string()),
    };
    let merged = resolve_refinement(raw, Ok("Hello, world.".to_string()));
    assert_eq!(merged.text, "Hello, world.");
    assert_eq!(merged.language.as_deref(), Some("en"));
}

#[test]
fn refinement_failure_keeps_the_raw_transcription() {
    let raw = TranscriptionResponse {
        text: "helo wrld".to_string(),
        language: None,
    };
    let merged = resolve_refinement(
        raw,
        Err(TranscriptionError::RequestError("timeout".to_string())),
    );
    assert_eq!(merged.text, "helo wrld");
    assert!(merged.language.is_none());
}

#[test]
fn refined_text_is_drawn_from_first_choice_and_trimmed() {
    assert_eq!(
        choose_refined(Some("  cleaned up  ".to_string()), "raw"),
        "cleaned up"
    );
    assert_eq!(choose_refined(None, "  raw text "), "raw text");
}

#[test]
fn transcription_error_messages_name_their_kind() {
    assert_eq!(
        TranscriptionError::RequestError("x".to_string()).message(),
        "HTTP request failed: x"
    );
    assert_eq!(
        TranscriptionError::ApiError("y".to_string()).message(),
        "API error: y"
    );
    assert_eq!(
        TranscriptionError::ParseError("z".to_string()).message(),
        "Failed to parse response: z"
    );
}

#[test]
fn default_settings_are_disarmed_with_conveniences_on() {
    let s = AppSettings::default();
    assert!(s.groq_api_key.is_empty());
    assert!(s.auto_paste);
    assert!(s.always_on_top);
}

#[test]
fn settings_new_keeps_its_fields() {
    let s = AppSettings::new("k".to_string(), false, true);
    assert_eq!(s.groq_api_key, "k");
    assert!(!s.auto_paste);
    assert!(s.always_on_top);
}
