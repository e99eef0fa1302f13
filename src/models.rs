//! The session data model: sessions, their status and transcript lines.

use vstd::prelude::*;

verus! {

/// Lifecycle status of a lecture session.
#[derive(Debug, Clone, Copy, PartialEq, Eq, Structural)]
pub enum SessionStatus {
    Draft,
    Complete,
    Archived,
}

/// The text form of each status.
pub open spec fn status_text(s: SessionStatus) -> Seq<char> {
    match s {
        SessionStatus::Draft => "draft"@,
        SessionStatus::Complete => "complete"@,
        SessionStatus::Archived => "archived"@,
    }
}

/// The status whose text form is `t`, if any.
pub open spec fn status_of_text(t: Seq<char>) -> Option<SessionStatus> {
    if t == "draft"@ {
        Some(SessionStatus::Draft)
    } else if t == "complete"@ {
        Some(SessionStatus::Complete)
    } else if t == "archived"@ {
        Some(SessionStatus::Archived)
    } else {
        None
    }
}

impl SessionStatus {
    pub fn as_str(&self) -> (r: &'static str)
        ensures
            r@ == status_text(*self),
    {
        match self {
            SessionStatus::Draft => "draft",
            SessionStatus::Complete => "complete",
            SessionStatus::Archived => "archived",
        }
    }

    /// Reads a status from its text form.
    pub fn parse(s: &str) -> (r: Option<SessionStatus>)
        ensures
            r == status_of_text(s@),
    {
        let t = s.to_owned();
        if t == "draft".to_owned() {
            Some(SessionStatus::Draft)
        } else if t == "complete".to_owned() {
            Some(SessionStatus::Complete)
        } else if t == "archived".to_owned() {
            Some(SessionStatus::Archived)
        } else {
            None
        }
    }
}

impl Default for SessionStatus {
    fn default() -> (r: SessionStatus)
        ensures
            r == SessionStatus::Draft,
    {
        SessionStatus::Draft
    }
}

impl std::str::FromStr for SessionStatus {
    type Err = String;

    fn from_str(s: &str) -> (r: Result<SessionStatus, String>)
        ensures
            match status_of_text(s@) {
                Some(st) => r == Ok::<SessionStatus, String>(st),
                None => r is Err,
            },
    {
        match SessionStatus::parse(s) {
            Some(status) => Ok(status),
            None => Err(invalid_status_message(s)),
        }
    }
}

/// The message for a text that names no status.
pub fn invalid_status_message(s: &str) -> (r: String)
    ensures
        r@ == "Invalid status: "@ + s@ + ". Must be one of: draft, complete, archived"@,
{
    let m = "Invalid status: ".to_owned();
    let m = m.concat(s);
    m.concat(". Must be one of: draft, complete, archived")
}

/// A lecture session and the names of its files inside its directory.
#[derive(Debug, Clone, PartialEq, Eq)]
pub struct Session {
    pub id: String,
    pub title: String,
    pub course: String,
    pub created_at: i64,
    pub duration_ms: i64,
    pub status: SessionStatus,
    pub notes_path: Option<String>,
    pub audio_path: Option<String>,
    pub transcript_path: Option<String>,
}

/// An optional string as its characters.
pub open spec fn opt_view(o: Option<String>) -> Option<Seq<char>> {
    match o {
        Some(s) => Some(s@),
        None => None,
    }
}

/// The file name `path` names, or `default` when it names none.
pub open spec fn file_or(path: Option<String>, default: Seq<char>) -> Seq<char> {
    match path {
        Some(p) => p@,
        None => default,
    }
}

fn file_or_default(path: &Option<String>, default: &str) -> (r: String)
    ensures
        r@ == file_or(*path, default@),
{
    match path {
        Some(p) => p.clone(),
        None => default.to_owned(),
    }
}

impl Session {
    /// A new draft session with no recorded duration and the standard file
    /// names for its notes, audio and transcript.
    pub fn draft(id: String, title: String, course: String, created_at: i64) -> (r: Session)
        ensures
            r.id@ == id@,
            r.title@ == title@,
            r.course@ == course@,
            r.created_at == created_at,
            r.duration_ms == 0,
            r.status == SessionStatus::Draft,
            opt_view(r.notes_path) == Some("notes.md"@),
            opt_view(r.audio_path) == Some("audio.wav"@),
            opt_view(r.transcript_path) == Some("transcript.jsonl"@),
    {
        Session {
            id,
            title,
            course,
            created_at,
            duration_ms: 0,
            status: SessionStatus::Draft,
            notes_path: Some("notes.md".to_owned()),
            audio_path: Some("audio.wav".to_owned()),
            transcript_path: Some("transcript.jsonl".to_owned()),
        }
    }

    /// The transcript's file name, `transcript.jsonl` when none is set.
    pub fn transcript_file(&self) -> (r: String)
        ensures
            r@ == file_or(self.transcript_path, "transcript.jsonl"@),
    {
        file_or_default(&self.transcript_path, "transcript.jsonl")
    }

    /// The notes' file name, `notes.md` when none is set.
    pub fn notes_file(&self) -> (r: String)
        ensures
            r@ == file_or(self.notes_path, "notes.md"@),
    {
        file_or_default(&self.notes_path, "notes.md")
    }
}

/// One line of a session's transcript.
#[derive(Debug, Clone, PartialEq, Eq)]
pub struct TranscriptLine {
    pub t_ms: u64,
    pub speaker: String,
    pub text: String,
}

/// Parsing and printing a status are inverse to each other.
pub proof fn lemma_status_text_round_trip(s: SessionStatus)
    ensures
        status_of_text(status_text(s)) == Some(s),
{
    reveal_strlit("draft");
    reveal_strlit("complete");
    reveal_strlit("archived");
    assert("draft"@.len() != "complete"@.len());
    assert("draft"@.len() != "archived"@.len());
    assert("complete"@[0] != "archived"@[0]);
}

} // verus!
