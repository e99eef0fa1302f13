use polka::capture::{
    AudioFormat, ConfigRange, SampleEncoding, StreamSettings, WriterSlot,
    negotiate_speech, route_block,
};
use polka::recorder::AudioRecorder;
use polka::registry::{RecordingError, SessionRegistry, is_paused, is_recording};
use polka::speech::{
    MockTranscriber, SpeechRegistry, is_speech_processing, join_words, phrase, random, split_words,
};
use std::path::PathBuf;

fn mono_16k_device() -> Option<Vec<ConfigRange>> {
    Some(vec![ConfigRange { channels: 1, min_sample_rate: 8000, max_sample_rate: 48000 }])
}

#[test]
fn pause_before_start_is_not_recording() {
    let mut reg = SessionRegistry::new();
    assert_eq!(reg.pause("s1"), Err(RecordingError::NotRecording));
    assert!(!is_recording(&reg, "s1"));
    assert!(!is_paused(&reg, "s1"));
}

#[test]
fn resume_before_start_is_not_recording() {
    let mut reg = SessionRegistry::new();
    assert_eq!(reg.resume("s1", None), Err(RecordingError::NotRecording));
}

#[test]
fn resume_before_pause_is_not_paused() {
    let mut reg = SessionRegistry::new();
    reg.start("s1", &mono_16k_device()).unwrap();
    assert_eq!(reg.resume("s1", None), Err(RecordingError::NotPaused));
    assert!(is_recording(&reg, "s1"));
    assert!(!is_paused(&reg, "s1"));
}

#[test]
fn second_start_is_already_recording() {
    let mut reg = SessionRegistry::new();
    let plan = reg.start("s1", &mono_16k_device()).unwrap();
    assert_eq!(plan.segment, 0);
    assert_eq!(reg.start("s1", &mono_16k_device()).unwrap_err(), RecordingError::AlreadyRecording);
    let st = reg.state("s1");
    assert!(st.recording);
    assert!(!st.paused);
    // the first start's segment is still the open one
    assert_eq!(reg.pause("s1"), Ok(Some(0)));
}

#[test]
fn start_without_device_or_config_leaves_nothing() {
    let mut reg = SessionRegistry::new();
    assert_eq!(reg.start("s1", &None).unwrap_err(), RecordingError::NoInputDevice);
    let unusable = Some(vec![ConfigRange { channels: 2, min_sample_rate: 48000, max_sample_rate: 96000 }]);
    assert_eq!(reg.start("s1", &unusable).unwrap_err(), RecordingError::NoSuitableConfig);
    assert!(!is_recording(&reg, "s1"));
    // a later good start still gets segment 0
    assert_eq!(reg.start("s1", &mono_16k_device()).unwrap().segment, 0);
}

#[test]
fn start_on_mono_16k_device_plans_mono_pcm16() {
    let mut reg = SessionRegistry::new();
    let plan = reg.start("s1", &mono_16k_device()).unwrap();
    assert_eq!(plan.settings, StreamSettings { channels: 1, sample_rate: 16000 });
    assert_eq!(
        plan.format,
        AudioFormat { channels: 1, sample_rate: 16000, bits_per_sample: 16, encoding: SampleEncoding::Int }
    );
}

#[test]
fn pause_resume_stop_hand_out_segments_in_order() {
    let mut reg = SessionRegistry::new();
    reg.start("s1", &mono_16k_device()).unwrap();
    for k in 0..3usize {
        assert_eq!(reg.pause("s1"), Ok(Some(k)));
        assert!(is_paused(&reg, "s1"));
        assert_eq!(reg.pop_latest_segment("s1"), Ok(k));
        let plan = reg.resume("s1", None).unwrap();
        assert_eq!(plan.segment, k + 1);
        assert_eq!(plan.format, AudioFormat::default_format());
    }
    let stop = reg.stop("s1").unwrap();
    assert_eq!(stop.finalize, Some(3));
    assert_eq!(stop.stitch, vec![3]);
    assert!(!is_recording(&reg, "s1"));
    assert_eq!(reg.stop("s1").unwrap_err(), RecordingError::NotRecording);
}

#[test]
fn pausing_twice_finalizes_once() {
    let mut reg = SessionRegistry::new();
    reg.start("s1", &mono_16k_device()).unwrap();
    assert_eq!(reg.pause("s1"), Ok(Some(0)));
    assert_eq!(reg.pause("s1"), Ok(None));
    let stop = reg.stop("s1").unwrap();
    assert_eq!(stop.finalize, None);
    assert_eq!(stop.stitch, vec![0]);
}

#[test]
fn resume_keeps_main_file_format() {
    let mut reg = SessionRegistry::new();
    reg.start("s1", &mono_16k_device()).unwrap();
    reg.pause("s1").unwrap();
    let main = AudioFormat { channels: 1, sample_rate: 44100, bits_per_sample: 16, encoding: SampleEncoding::Int };
    assert_eq!(reg.resume("s1", Some(main)).unwrap().format, main);
}

#[test]
fn unstitched_segments_are_all_swept_at_stop() {
    let mut reg = SessionRegistry::new();
    reg.start("s1", &mono_16k_device()).unwrap();
    reg.pause("s1").unwrap();
    // finalizing failed: segment 0 was never popped
    reg.resume("s1", None).unwrap();
    let stop = reg.stop("s1").unwrap();
    assert_eq!(stop.finalize, Some(1));
    assert_eq!(stop.stitch, vec![0, 1]);
}

#[test]
fn pop_errors() {
    let mut reg = SessionRegistry::new();
    assert_eq!(reg.pop_latest_segment("s1"), Err(RecordingError::SessionNotFound));
    reg.start("s1", &mono_16k_device()).unwrap();
    reg.pause("s1").unwrap();
    assert_eq!(reg.pop_latest_segment("s1"), Ok(0));
    assert_eq!(reg.pop_latest_segment("s1"), Err(RecordingError::NoSegments));
}

#[test]
fn sessions_are_independent() {
    let mut reg = SessionRegistry::new();
    reg.start("a", &mono_16k_device()).unwrap();
    reg.start("b", &mono_16k_device()).unwrap();
    reg.pause("a").unwrap();
    assert!(is_paused(&reg, "a"));
    assert!(!is_paused(&reg, "b"));
    reg.stop("a").unwrap();
    assert!(!is_recording(&reg, "a"));
    assert!(is_recording(&reg, "b"));
}

#[test]
fn restart_after_stop_begins_at_segment_zero() {
    let mut reg = SessionRegistry::new();
    reg.start("s1", &mono_16k_device()).unwrap();
    reg.pause("s1").unwrap();
    reg.pop_latest_segment("s1").unwrap();
    reg.resume("s1", None).unwrap();
    reg.stop("s1").unwrap();
    assert_eq!(reg.start("s1", &mono_16k_device()).unwrap().segment, 0);
}

#[test]
fn speech_policy_prefers_16k_else_minimum() {
    let ranges = vec![
        ConfigRange { channels: 0, min_sample_rate: 8000, max_sample_rate: 48000 },
        ConfigRange { channels: 2, min_sample_rate: 22050, max_sample_rate: 48000 },
    ];
    assert_eq!(negotiate_speech(&ranges), Some(StreamSettings { channels: 1, sample_rate: 22050 }));
    let ranges = vec![ConfigRange { channels: 2, min_sample_rate: 8000, max_sample_rate: 16000 }];
    assert_eq!(negotiate_speech(&ranges), Some(StreamSettings { channels: 1, sample_rate: 16000 }));
    let ranges = vec![ConfigRange { channels: 1, min_sample_rate: 8000, max_sample_rate: 12000 }];
    assert_eq!(negotiate_speech(&ranges), None);
    assert_eq!(negotiate_speech(&vec![]), None);
}

#[test]
fn blocks_route_to_meter_while_paused() {
    let r = route_block(true, true);
    assert!(r.meter && !r.write);
    let r = route_block(true, false);
    assert!(r.meter && r.write);
    let r = route_block(false, false);
    assert!(!r.meter && !r.write);
}

#[test]
fn finalize_twice_takes_writer_once() {
    let mut slot: WriterSlot<Vec<i16>> = WriterSlot::holding(vec![1, 2, 3]);
    assert!(slot.is_open());
    assert_eq!(slot.take(), Some(vec![1, 2, 3]));
    assert_eq!(slot.take(), None);
    assert!(!slot.is_open());
    assert_eq!(slot.install(vec![4]), None);
    assert_eq!(slot.install(vec![5]), Some(vec![4]));
    let empty: WriterSlot<u8> = WriterSlot::empty();
    assert!(!empty.is_open());
}

#[test]
fn recorder_start_stop() {
    let mut rec = AudioRecorder::new("s1".to_string(), PathBuf::from("/tmp/session"));
    assert!(!rec.is_recording());
    assert_eq!(rec.output_path(), &PathBuf::from("/tmp/session/audio.wav"));
    assert_eq!(rec.session_id(), "s1");
    assert_eq!(rec.stop_recording(), Err(RecordingError::NotRecording));
    assert_eq!(rec.start_recording(&None), Err(RecordingError::NoInputDevice));
    let s = rec.start_recording(&mono_16k_device()).unwrap();
    assert_eq!(s, StreamSettings { channels: 1, sample_rate: 16000 });
    assert!(rec.is_recording());
    assert_eq!(rec.start_recording(&mono_16k_device()), Err(RecordingError::AlreadyRecording));
    assert_eq!(rec.stop_recording(), Ok(()));
    assert!(!rec.is_recording());
}

#[test]
fn recorder_falls_back_to_minimum_rate() {
    let mut rec = AudioRecorder::new("s2".to_string(), PathBuf::from("/tmp/session"));
    let device = Some(vec![ConfigRange { channels: 2, min_sample_rate: 22050, max_sample_rate: 48000 }]);
    assert_eq!(rec.start_recording(&device), Ok(StreamSettings { channels: 1, sample_rate: 22050 }));
    let mut other = AudioRecorder::new("s3".to_string(), PathBuf::from("/tmp/session"));
    let unusable = Some(vec![ConfigRange { channels: 1, min_sample_rate: 48000, max_sample_rate: 96000 }]);
    assert_eq!(other.start_recording(&unusable), Err(RecordingError::NoSuitableConfig));
    assert!(!other.is_recording());
}

#[test]
fn speech_flags_follow_start_stop_cleanup() {
    let mut reg = SpeechRegistry::new();
    assert!(!is_speech_processing(&reg, "s1"));
    reg.start("s1");
    reg.start("s2");
    assert!(is_speech_processing(&reg, "s1"));
    reg.stop("s1");
    assert!(!is_speech_processing(&reg, "s1"));
    assert!(is_speech_processing(&reg, "s2"));
    reg.cleanup("s2");
    assert!(!is_speech_processing(&reg, "s2"));
}

#[test]
fn random_steps_the_generator() {
    let mut seed: u64 = 1;
    let a = random(&mut seed);
    assert_eq!(a, 1103527590);
    assert_eq!(seed, 1103527590);
    let b = random(&mut seed);
    assert_eq!(b, 1103527590u64.wrapping_mul(1103515245).wrapping_add(12345));
}

#[test]
fn feed_speaks_first_phrase_word_by_word() {
    let mut feed = MockTranscriber::new();
    let step = feed.tick(0, 0);
    assert_eq!(step.text, None);
    assert!(!step.rest);
    // first word is due but a single word is not emitted
    let step = feed.tick(800, 0);
    assert_eq!(step.text, None);
    let step = feed.tick(1000, 7);
    assert_eq!(step.text.as_deref(), Some("Today we're"));
    // 800 + 399 ms are not yet enough for a draw of 399
    assert_eq!(feed.tick(1198, 399).text, None);
    assert_eq!(feed.tick(1199, 399).text.as_deref(), Some("Today we're going"));
    let mut last = None;
    for _ in 0..10 {
        let step = feed.tick(2000, 0);
        last = step.text;
        if step.rest {
            break;
        }
    }
    assert_eq!(last.as_deref(), Some("Today we're going to discuss the fundamentals of machine learning."));
    // the next phrase starts afresh
    assert_eq!(feed.tick(2000, 0).text, None);
    assert_eq!(feed.tick(2000, 0).text.as_deref(), Some("The key"));
}

#[test]
fn words_split_and_join() {
    let words = split_words("  a bb  ccc ");
    assert_eq!(words, vec!["a".to_string(), "bb".to_string(), "ccc".to_string()]);
    assert_eq!(join_words(&words, 2), "a bb");
    assert_eq!(join_words(&words, 0), "");
    assert_eq!(split_words(phrase(2)).len(), 8);
}
