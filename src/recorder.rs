//! A single-session recorder: it negotiates its stream with the speech
//! policy (16 kHz when the device offers it) and records into the main
//! audio file of its session directory.

use vstd::prelude::*;
use crate::capture::{ConfigRange, StreamSettings, negotiate_speech, speech_settings};
use crate::registry::{RecordingError, device_view};
use crate::stitch::main_file_name;
use std::path::PathBuf;

verus! {

#[verifier::external_type_specification]
#[verifier::external_body]
pub struct ExPathBuf(PathBuf);

/// Relies on `Path::join`: the path of `name` inside `dir`.
#[verifier::external_body]
fn join_path(dir: &PathBuf, name: &str) -> PathBuf {
    dir.join(name)
}

/// What a recorder knows: its session and whether it is recording.
pub struct RecorderView {
    pub session_id: Seq<char>,
    pub recording: bool,
    /// The audio file it writes.
    pub output_path: PathBuf,
}

/// Records one session into the main audio file of its directory.
pub struct AudioRecorder {
    session_id: String,
    output_path: PathBuf,
    recording: bool,
}

impl View for AudioRecorder {
    type V = RecorderView;

    closed spec fn view(&self) -> RecorderView {
        RecorderView { session_id: self.session_id@, recording: self.recording, output_path: self.output_path }
    }
}

/// Outcome of `start_recording` for a recorder in state `v`.
pub open spec fn recorder_start_result(v: RecorderView, device: Option<Seq<ConfigRange>>) -> Result<
    StreamSettings,
    RecordingError,
> {
    if v.recording {
        Err(RecordingError::AlreadyRecording)
    } else {
        match device {
            None => Err(RecordingError::NoInputDevice),
            Some(cs) => match speech_settings(cs) {
                None => Err(RecordingError::NoSuitableConfig),
                Some(s) => Ok(s),
            },
        }
    }
}

impl AudioRecorder {
    /// A recorder for `session_id` writing to the main audio file of
    /// `session_dir`; it is not recording.
    pub fn new(session_id: String, session_dir: PathBuf) -> (r: AudioRecorder)
        ensures
            r@.session_id == session_id@,
            !r@.recording,
    {
        let output_path = join_path(&session_dir, main_file_name());
        AudioRecorder { session_id, output_path, recording: false }
    }

    /// Starts recording on a device offering the ranges in `device`
    /// (`None`: no input device); on success the stream is to be opened
    /// with the returned settings: 16 kHz when the first usable range
    /// includes it, else that range's minimum rate; mono when offered.
    pub fn start_recording(&mut self, device: &Option<Vec<ConfigRange>>) -> (r: Result<
        StreamSettings,
        RecordingError,
    >)
        ensures
            r == recorder_start_result(old(self)@, device_view(*device)),
            final(self)@.session_id == old(self)@.session_id,
            final(self)@.output_path == old(self)@.output_path,
            final(self)@.recording == (old(self)@.recording || r is Ok),
    {
        if self.recording {
            return Err(RecordingError::AlreadyRecording);
        }
        let settings = match device {
            None => {
                return Err(RecordingError::NoInputDevice);
            },
            Some(cs) => match negotiate_speech(cs) {
                None => {
                    return Err(RecordingError::NoSuitableConfig);
                },
                Some(s) => s,
            },
        };
        self.recording = true;
        Ok(settings)
    }

    /// Stops recording; fails with `NotRecording` when it was not.
    pub fn stop_recording(&mut self) -> (r: Result<(), RecordingError>)
        ensures
            old(self)@.recording ==> r is Ok,
            !old(self)@.recording ==> r == Err::<(), RecordingError>(RecordingError::NotRecording),
            final(self)@.session_id == old(self)@.session_id,
            final(self)@.output_path == old(self)@.output_path,
            !final(self)@.recording,
    {
        if !self.recording {
            return Err(RecordingError::NotRecording);
        }
        self.recording = false;
        Ok(())
    }

    pub fn is_recording(&self) -> (r: bool)
        ensures
            r == self@.recording,
    {
        self.recording
    }

    pub fn session_id(&self) -> (r: &String)
        ensures
            r@ == self@.session_id,
    {
        &self.session_id
    }

    /// Path of the audio file this recorder writes.
    pub fn output_path(&self) -> (r: &PathBuf)
        ensures
            *r == self@.output_path,
    {
        &self.output_path
    }
}

} // verus!
