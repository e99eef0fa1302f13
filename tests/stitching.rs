use polka::capture::{AudioFormat, ConfigRange, SampleEncoding};
use polka::registry::{RecordingError, SessionRegistry};
use polka::stitch::{
    AppendMethod, AudioTrack, StitchError, append_track, main_file_name, merge_file_name, plan_append,
    segment_file_name,
};
use polka::wav::{decode_track, encode_track, is_encodable, merge_segment};
use std::collections::BTreeMap;

fn mono_16k_device() -> Option<Vec<ConfigRange>> {
    Some(vec![ConfigRange { channels: 1, min_sample_rate: 8000, max_sample_rate: 48000 }])
}

fn tone(n: usize, offset: usize) -> Vec<i16> {
    (0..n)
        .map(|i| {
            let t = (i + offset) as f32 / 16000.0;
            let s = 0.5f32 * (2.0 * std::f32::consts::PI * 440.0 * t).sin();
            (s * i16::MAX as f32) as i16
        })
        .collect()
}

fn pcm16(rate: u32) -> AudioFormat {
    AudioFormat { channels: 1, sample_rate: rate, bits_per_sample: 16, encoding: SampleEncoding::Int }
}

/// Stitches segment `seg` of `dir` into its main file, as the control path does.
fn stitch_into_main(dir: &mut BTreeMap<String, Vec<u8>>, seg: usize) -> Result<(), StitchError> {
    let name = segment_file_name(seg);
    let len = dir.get(&name).map(|b| b.len() as u64).unwrap_or(0);
    let method = plan_append(dir.contains_key(&name), len, dir.contains_key(main_file_name()))?;
    match method {
        AppendMethod::Rename => {
            let bytes = dir.remove(&name).unwrap();
            dir.insert(main_file_name().to_string(), bytes);
        }
        AppendMethod::Merge => {
            let merged = merge_segment(&dir[main_file_name()], &dir[&name])?;
            dir.insert(merge_file_name().to_string(), merged);
            let bytes = dir.remove(merge_file_name()).unwrap();
            dir.insert(main_file_name().to_string(), bytes);
            dir.remove(&name);
        }
    }
    Ok(())
}

#[test]
fn file_names() {
    assert_eq!(main_file_name(), "audio.wav");
    assert_eq!(merge_file_name(), "audio.temp.wav");
    assert_eq!(segment_file_name(0), "audio_segment_0.wav");
    assert_eq!(segment_file_name(12), "audio_segment_12.wav");
    assert_eq!(segment_file_name(1005), "audio_segment_1005.wav");
    assert_eq!(segment_file_name(usize::MAX), format!("audio_segment_{}.wav", usize::MAX));
}

#[test]
fn append_plans() {
    assert_eq!(plan_append(false, 0, true), Err(StitchError::SegmentMissing));
    assert_eq!(plan_append(true, 0, true), Err(StitchError::SegmentEmpty));
    assert_eq!(plan_append(true, 44, false), Ok(AppendMethod::Rename));
    assert_eq!(plan_append(true, 44, true), Ok(AppendMethod::Merge));
}

#[test]
fn append_track_keeps_main_format() {
    let main = AudioTrack { format: pcm16(16000), samples: vec![1, 2] };
    let seg = AudioTrack { format: pcm16(44100), samples: vec![3] };
    let t = append_track(main, seg);
    assert_eq!(t.format, pcm16(16000));
    assert_eq!(t.samples, vec![1, 2, 3]);
}

#[test]
fn encode_then_decode_gives_the_track_back() {
    let track = AudioTrack { format: pcm16(16000), samples: vec![0, -1, 32767, -32768, 5] };
    let bytes = encode_track(&track).unwrap();
    assert_eq!(&bytes[0..4], b"RIFF");
    assert_eq!(bytes.len(), 44 + 2 * 5);
    let back = decode_track(&bytes).unwrap();
    assert_eq!(back.format, track.format);
    assert_eq!(back.samples, track.samples);
}

#[test]
fn decode_rejects_garbage() {
    assert!(decode_track(b"not a wave file").is_none());
    assert!(decode_track(&[]).is_none());
}

#[test]
fn encode_refuses_unsupported_width() {
    let track = AudioTrack {
        format: AudioFormat { channels: 1, sample_rate: 16000, bits_per_sample: 12, encoding: SampleEncoding::Int },
        samples: vec![1],
    };
    assert!(is_encodable(track.format, 1));
    assert_eq!(encode_track(&track), Err(StitchError::EncodeFailed));
}

#[test]
fn encodable_limits() {
    assert!(is_encodable(pcm16(16000), 16000));
    assert!(!is_encodable(pcm16(0), 1));
    let none = AudioFormat { channels: 0, sample_rate: 16000, bits_per_sample: 16, encoding: SampleEncoding::Int };
    assert!(!is_encodable(none, 1));
    let float16 = AudioFormat { channels: 1, sample_rate: 16000, bits_per_sample: 16, encoding: SampleEncoding::Float };
    assert!(!is_encodable(float16, 1));
    assert!(!is_encodable(pcm16(u32::MAX), 1));
    assert!(!is_encodable(pcm16(16000), 0x8000_0000));
}

#[test]
fn merge_appends_segment_samples_in_main_format() {
    let main = encode_track(&AudioTrack { format: pcm16(16000), samples: vec![1, 2, 3] }).unwrap();
    let seg = encode_track(&AudioTrack { format: pcm16(8000), samples: vec![4, 5] }).unwrap();
    let merged = decode_track(&merge_segment(&main, &seg).unwrap()).unwrap();
    assert_eq!(merged.format, pcm16(16000));
    assert_eq!(merged.samples, vec![1, 2, 3, 4, 5]);
}

#[test]
fn merge_errors() {
    let good = encode_track(&AudioTrack { format: pcm16(16000), samples: vec![1] }).unwrap();
    assert_eq!(merge_segment(b"junk", &good), Err(StitchError::MainUnreadable));
    assert_eq!(merge_segment(&good, b"junk"), Err(StitchError::SegmentUnreadable));
}

#[test]
fn one_second_tone_at_16k_mono() {
    let mut reg = SessionRegistry::new();
    let plan = reg.start("s1", &mono_16k_device()).unwrap();
    assert_eq!(plan.format, pcm16(16000));
    let mut dir: BTreeMap<String, Vec<u8>> = BTreeMap::new();
    let samples = tone(16000, 0);
    let seg = encode_track(&AudioTrack { format: plan.format, samples: samples.clone() }).unwrap();
    let stop = reg.stop("s1").unwrap();
    assert_eq!(stop.finalize, Some(plan.segment));
    dir.insert(segment_file_name(plan.segment), seg);
    for s in &stop.stitch {
        stitch_into_main(&mut dir, *s).unwrap();
    }
    let main = decode_track(&dir[main_file_name()]).unwrap();
    assert_eq!(main.format, pcm16(16000));
    assert_eq!(main.samples.len(), 16000);
    assert!(main.samples.iter().all(|s| (*s as i32).abs() <= 16384));
    assert!(main.samples.iter().any(|s| (*s as i32).abs() > 16000));
    assert_eq!(main.samples, samples);
}

#[test]
fn pause_resume_leaves_one_main_file_with_both_halves() {
    let mut reg = SessionRegistry::new();
    let mut dir: BTreeMap<String, Vec<u8>> = BTreeMap::new();
    let plan = reg.start("s1", &mono_16k_device()).unwrap();
    let first = tone(8000, 0);
    let second = tone(8000, 8000);

    let open = reg.pause("s1").unwrap().unwrap();
    assert_eq!(open, plan.segment);
    dir.insert(
        segment_file_name(open),
        encode_track(&AudioTrack { format: plan.format, samples: first.clone() }).unwrap(),
    );
    let popped = reg.pop_latest_segment("s1").unwrap();
    stitch_into_main(&mut dir, popped).unwrap();

    let main_format = decode_track(&dir[main_file_name()]).map(|t| t.format);
    let resumed = reg.resume("s1", main_format).unwrap();
    assert_eq!(resumed.segment, 1);
    assert_eq!(resumed.format, pcm16(16000));

    let stop = reg.stop("s1").unwrap();
    let last = stop.finalize.unwrap();
    dir.insert(
        segment_file_name(last),
        encode_track(&AudioTrack { format: resumed.format, samples: second.clone() }).unwrap(),
    );
    for s in &stop.stitch {
        stitch_into_main(&mut dir, *s).unwrap();
    }

    assert_eq!(dir.keys().cloned().collect::<Vec<_>>(), vec!["audio.wav".to_string()]);
    let main = decode_track(&dir[main_file_name()]).unwrap();
    let mut expected = first;
    expected.extend(second);
    assert_eq!(main.samples, expected);
}

#[test]
fn pause_when_not_recording_touches_nothing() {
    let mut reg = SessionRegistry::new();
    let dir: BTreeMap<String, Vec<u8>> = BTreeMap::new();
    assert_eq!(reg.pause("s1"), Err(RecordingError::NotRecording));
    assert!(!reg.is_recording("s1"));
    assert!(dir.is_empty());
    assert_eq!(reg.stop("s1").unwrap_err(), RecordingError::NotRecording);
}
