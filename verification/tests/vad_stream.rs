use char_core::vad_errors::Error;
use char_core::vad_stream::{
    check_sample_rate, speech_chunk, PollStep, SpeechChunks, VadChunker, VadStreamItem, VadTransition,
};

/// Polls a stream over `samples` in chunks of `chunk_size` until it ends, answering each
/// chunk with `detect` and the end of the source with `finish`.
fn run(
    chunk_size: usize,
    samples: Vec<i32>,
    detect: impl Fn(&[i32]) -> Result<Vec<VadTransition<i32>>, Error>,
    finish: impl Fn(&[i32]) -> Result<Vec<VadTransition<i32>>, Error>,
) -> Vec<Result<VadStreamItem<i32>, Error>> {
    let mut c = VadChunker::new(chunk_size);
    let mut source = samples.into_iter();
    let mut out = Vec::new();
    loop {
        match c.poll_step() {
            PollStep::Ready(item) => out.push(Ok(item)),
            PollStep::End => break,
            PollStep::NeedSample => match source.next() {
                Some(s) => {
                    if c.push_sample(s) {
                        let chunk = c.take_chunk();
                        let result = detect(&chunk);
                        if let Some(r) = c.chunk_processed(chunk, result) {
                            out.push(r);
                        }
                    }
                }
                None => {
                    let trailing = c.take_trailing();
                    let result = finish(&trailing);
                    if let Some(r) = c.finished(trailing, result) {
                        out.push(r);
                    }
                }
            },
        }
    }
    assert!(c.finalized());
    assert!(matches!(c.poll_step(), PollStep::End));
    out
}

fn audio(items: &[Result<VadStreamItem<i32>, Error>]) -> Vec<i32> {
    let mut all = Vec::new();
    for item in items {
        if let Ok(VadStreamItem::AudioSamples(s)) = item {
            all.extend_from_slice(s);
        }
    }
    all
}

#[test]
fn no_audio_is_dropped_when_the_detector_succeeds() {
    let samples: Vec<i32> = (0..10).collect();
    let items = run(3, samples.clone(), |_| Ok(Vec::new()), |_| Ok(Vec::new()));
    assert_eq!(audio(&items), samples);
    assert_eq!(items.len(), 4);
    assert!(matches!(&items[3], Ok(VadStreamItem::AudioSamples(s)) if s == &vec![9]));
}

#[test]
fn transitions_follow_the_audio_of_their_chunk() {
    let items = run(
        2,
        vec![1, 2, 3, 4],
        |chunk| {
            if chunk[0] == 1 {
                Ok(vec![VadTransition::SpeechStart { timestamp_ms: 5 }])
            } else {
                Ok(Vec::new())
            }
        },
        |_| Ok(vec![VadTransition::SpeechEnd { start_timestamp_ms: 5, end_timestamp_ms: 9, samples: vec![1, 2, 3] }]),
    );
    assert_eq!(items.len(), 4);
    assert!(matches!(&items[0], Ok(VadStreamItem::AudioSamples(s)) if s == &vec![1, 2]));
    assert!(matches!(&items[1], Ok(VadStreamItem::SpeechStart { timestamp_ms: 5 })));
    assert!(matches!(&items[2], Ok(VadStreamItem::AudioSamples(s)) if s == &vec![3, 4]));
    assert!(matches!(
        &items[3],
        Ok(VadStreamItem::SpeechEnd { start_timestamp_ms: 5, end_timestamp_ms: 9, samples }) if samples == &vec![1, 2, 3]
    ));
}

#[test]
fn empty_trailing_audio_is_not_passed_on() {
    let items = run(2, vec![7, 8], |_| Ok(Vec::new()), |_| Ok(Vec::new()));
    assert_eq!(items.len(), 1);
    assert_eq!(audio(&items), vec![7, 8]);
}

#[test]
fn a_detector_error_is_passed_on_and_loses_its_chunk() {
    let items = run(
        2,
        vec![1, 2, 3, 4, 5],
        |chunk| {
            if chunk[0] == 1 {
                Err(Error::VadProcessingFailed("boom".to_string()))
            } else {
                Ok(Vec::new())
            }
        },
        |_| Ok(Vec::new()),
    );
    assert!(matches!(&items[0], Err(Error::VadProcessingFailed(m)) if m == "boom"));
    assert_eq!(audio(&items), vec![3, 4, 5]);
}

#[test]
fn a_final_pass_error_ends_the_stream() {
    let items = run(4, vec![1, 2], |_| Ok(Vec::new()), |_| Err(Error::VadProcessingFailed("end".to_string())));
    assert_eq!(items.len(), 1);
    assert!(matches!(&items[0], Err(Error::VadProcessingFailed(m)) if m == "end"));
}

#[test]
fn test_invalid_sample_rate_returns_stream_error() {
    let mut stream: SpeechChunks<f32> = SpeechChunks::start(8000, 512);
    let first = stream.take_refusal();
    assert!(matches!(first, Some(Error::UnsupportedSampleRate(8000))));
    assert!(stream.take_refusal().is_none());
    assert!(check_sample_rate(16000).is_ok());
    assert!(matches!(check_sample_rate(8000), Err(Error::UnsupportedSampleRate(8000))));
    assert_eq!(check_sample_rate(8000).unwrap_err().message(), "Unsupported sample rate: expected 16000 Hz, got 8000 Hz");
}

#[test]
fn speech_chunks_keep_only_speech_ends_and_errors() {
    let end = speech_chunk(Ok(VadStreamItem::SpeechEnd { start_timestamp_ms: 10, end_timestamp_ms: 20, samples: vec![4] }));
    match end {
        Some(Ok(chunk)) => {
            assert_eq!(chunk.samples, vec![4]);
            assert_eq!(chunk.start_timestamp_ms, 10);
            assert_eq!(chunk.end_timestamp_ms, 20);
        }
        _ => panic!("expected a chunk"),
    }
    assert!(speech_chunk(Ok(VadStreamItem::<i32>::AudioSamples(vec![1]))).is_none());
    assert!(speech_chunk(Ok(VadStreamItem::<i32>::SpeechStart { timestamp_ms: 1 })).is_none());
    assert!(matches!(
        speech_chunk::<i32>(Err(Error::UnsupportedSampleRate(8000))),
        Some(Err(Error::UnsupportedSampleRate(8000)))
    ));
}

#[test]
fn a_refused_stream_yields_its_error_once_then_ends() {
    let mut stream: SpeechChunks<i32> = SpeechChunks::start(8000, 4);
    assert!(matches!(stream.take_refusal(), Some(Error::UnsupportedSampleRate(8000))));
    assert!(stream.take_refusal().is_none());
    assert!(stream.take_refusal().is_none());
    let mut running: SpeechChunks<i32> = SpeechChunks::start(16000, 4);
    assert!(matches!(running, SpeechChunks::Running(_)));
    assert!(running.take_refusal().is_none());
    let mut failed: SpeechChunks<i32> = SpeechChunks::refused(Error::VadSessionCreationFailed("no model".to_string()));
    assert!(matches!(failed.take_refusal(), Some(Error::VadSessionCreationFailed(m)) if m == "no model"));
}
