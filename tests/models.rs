use polka::models::{Session, SessionStatus, TranscriptLine, invalid_status_message};
use std::str::FromStr;

#[test]
fn test_session_creation() {
    let session = Session {
        id: "test_id_123".to_string(),
        title: "Test Session".to_string(),
        course: "Computer Science".to_string(),
        created_at: 1234567890,
        duration_ms: 0,
        status: SessionStatus::Draft,
        notes_path: None,
        audio_path: None,
        transcript_path: None,
    };

    assert_eq!(session.title, "Test Session");
    assert_eq!(session.course, "Computer Science");
    assert_eq!(session.status.as_str(), "draft");
}

#[test]
fn test_status_parsing() {
    assert_eq!(SessionStatus::from_str("draft").unwrap(), SessionStatus::Draft);
    assert_eq!(SessionStatus::from_str("complete").unwrap(), SessionStatus::Complete);

    // Test invalid status
    assert!(SessionStatus::from_str("invalid").is_err());
}

#[test]
fn test_status_string_conversion() {
    assert_eq!(SessionStatus::Draft.as_str(), "draft");
    assert_eq!(SessionStatus::Complete.as_str(), "complete");
}

#[test]
fn archived_status_round_trips() {
    assert_eq!(SessionStatus::Archived.as_str(), "archived");
    assert_eq!(SessionStatus::parse("archived"), Some(SessionStatus::Archived));
    assert_eq!(SessionStatus::parse("Draft"), None);
    assert_eq!(SessionStatus::parse(""), None);
}

#[test]
fn invalid_status_error_names_the_text() {
    assert_eq!(
        SessionStatus::from_str("paused").unwrap_err(),
        "Invalid status: paused. Must be one of: draft, complete, archived"
    );
    assert_eq!(invalid_status_message("x"), "Invalid status: x. Must be one of: draft, complete, archived");
}

#[test]
fn every_status_parses_back_from_its_text() {
    for st in [SessionStatus::Draft, SessionStatus::Complete, SessionStatus::Archived] {
        assert_eq!(SessionStatus::from_str(st.as_str()), Ok(st));
    }
    assert!(SessionStatus::from_str("archive").is_err());
}

#[test]
fn default_status_is_draft() {
    assert_eq!(SessionStatus::default(), SessionStatus::Draft);
}

#[test]
fn draft_session_has_standard_files() {
    let s = Session::draft("abc".to_string(), "Intro".to_string(), "CS101".to_string(), 42);
    assert_eq!(s.id, "abc");
    assert_eq!(s.created_at, 42);
    assert_eq!(s.duration_ms, 0);
    assert_eq!(s.status, SessionStatus::Draft);
    assert_eq!(s.notes_path.as_deref(), Some("notes.md"));
    assert_eq!(s.audio_path.as_deref(), Some("audio.wav"));
    assert_eq!(s.transcript_path.as_deref(), Some("transcript.jsonl"));
    assert_eq!(s.transcript_file(), "transcript.jsonl");
    assert_eq!(s.notes_file(), "notes.md");
}

#[test]
fn missing_file_names_fall_back_to_defaults() {
    let mut s = Session::draft("abc".to_string(), "Intro".to_string(), "CS101".to_string(), 42);
    s.transcript_path = None;
    s.notes_path = Some("mine.md".to_string());
    assert_eq!(s.transcript_file(), "transcript.jsonl");
    assert_eq!(s.notes_file(), "mine.md");
}

#[test]
fn transcript_line_fields() {
    let line = TranscriptLine { t_ms: 1500, speaker: "A".to_string(), text: "hello".to_string() };
    assert_eq!(line.clone(), line);
    assert_eq!(line.t_ms, 1500);
}
