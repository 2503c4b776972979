use char_core::pipeline::{sink_audio, AudioBuffer, Backlog, ChannelMode, JoinedPair, Joiner, ListenerRouting, SinkAudio, MAX_BUFFER_CHUNKS};

type Frame = (Vec<f32>, Vec<f32>, ChannelMode);

fn stereo_chunk() -> Vec<f32> {
    vec![0.25, -0.25, 0.5, -0.5]
}

fn frame_of(pair: JoinedPair<Vec<f32>>, mode: ChannelMode) -> Frame {
    match pair {
        JoinedPair::Both(m, s) => (m, s, mode),
        JoinedPair::MicWithSilence(m) => {
            let n = m.len();
            (m, vec![0.0; n], mode)
        }
        JoinedPair::SpeakerWithSilence(s) => {
            let n = s.len();
            (vec![0.0; n], s, mode)
        }
    }
}

fn flush(joiner: &mut Joiner<Vec<f32>>, backlog: &mut Backlog<Frame>, mode: ChannelMode, routing: ListenerRouting) -> Vec<Frame> {
    let mut sent = Vec::new();
    while let Some(pair) = joiner.pop_pair(mode) {
        sent.extend(backlog.route(frame_of(pair, mode), routing));
    }
    sent
}

#[test]
fn buffers_until_listener_attaches_then_flushes() {
    let mut joiner = Joiner::new();
    let mut backlog = Backlog::new();

    joiner.push_mic(stereo_chunk());
    joiner.push_spk(stereo_chunk());
    let sent = flush(&mut joiner, &mut backlog, ChannelMode::MicAndSpeaker, ListenerRouting::Buffering);
    assert!(sent.is_empty());
    assert_eq!(backlog.buffer.len(), 1);

    let sent = backlog.on_routing_changed(ListenerRouting::Attached(1));
    assert_eq!(sent.len(), 1);
    assert!(matches!(sink_audio(sent[0].0.clone(), sent[0].1.clone(), sent[0].2), SinkAudio::Dual(_, _)));
    assert!(backlog.buffer.is_empty());
}

#[test]
fn dropped_listener_clears_backlog_and_stops_future_buffering() {
    let mut joiner = Joiner::new();
    let mut backlog = Backlog::new();

    joiner.push_mic(stereo_chunk());
    joiner.push_spk(stereo_chunk());
    let _ = flush(&mut joiner, &mut backlog, ChannelMode::MicAndSpeaker, ListenerRouting::Buffering);
    assert_eq!(backlog.buffer.len(), 1);

    let sent = backlog.on_routing_changed(ListenerRouting::Dropped);
    assert!(sent.is_empty());
    assert!(backlog.buffer.is_empty());

    let sent = backlog.on_routing_changed(ListenerRouting::Attached(1));
    assert!(sent.is_empty());

    joiner.push_mic(stereo_chunk());
    joiner.push_spk(stereo_chunk());
    let sent = flush(&mut joiner, &mut backlog, ChannelMode::MicAndSpeaker, ListenerRouting::Dropped);
    assert!(sent.is_empty());
    assert!(backlog.buffer.is_empty());
}

#[test]
fn recorder_receives_audio_from_explicit_sink() {
    let mut joiner = Joiner::new();
    joiner.push_mic(stereo_chunk());
    joiner.push_spk(stereo_chunk());
    let pair = joiner.pop_pair(ChannelMode::MicAndSpeaker).unwrap();
    let (mic, spk, mode) = frame_of(pair, ChannelMode::MicAndSpeaker);
    assert!(matches!(sink_audio(mic, spk, mode), SinkAudio::Dual(_, _)));
}

#[test]
fn lone_side_waits_for_lag_before_silence() {
    let mut joiner: Joiner<u32> = Joiner::new();
    for i in 0..4 {
        joiner.push_mic(i);
    }
    assert!(joiner.pop_pair(ChannelMode::MicAndSpeaker).is_none());
    joiner.push_mic(4);
    assert!(matches!(joiner.pop_pair(ChannelMode::MicAndSpeaker), Some(JoinedPair::MicWithSilence(0))));
    assert!(matches!(joiner.pop_pair(ChannelMode::MicOnly), Some(JoinedPair::MicWithSilence(1))));
    assert!(joiner.pop_pair(ChannelMode::SpeakerOnly).is_none());
}

#[test]
fn queues_keep_the_newest_chunks() {
    let mut joiner: Joiner<u32> = Joiner::new();
    for i in 0..35 {
        joiner.push_spk(i);
    }
    assert!(matches!(joiner.pop_pair(ChannelMode::SpeakerOnly), Some(JoinedPair::SpeakerWithSilence(5))));
}

#[test]
fn backlog_drains_at_its_quota() {
    let mut backlog: Backlog<u32> = Backlog::new();
    for i in 0..5 {
        let sent = backlog.route(i, ListenerRouting::Buffering);
        assert!(sent.is_empty());
    }
    let sent = backlog.on_routing_changed(ListenerRouting::Attached(1));
    assert_eq!(sent, vec![0]);
    assert_eq!(backlog.quota, 1);
    let sent = backlog.route(10, ListenerRouting::Attached(1));
    assert_eq!(sent, vec![10]);
    assert_eq!(backlog.quota, 2);
    let _ = backlog.route(11, ListenerRouting::Attached(1));
    let sent = backlog.route(12, ListenerRouting::Attached(1));
    assert_eq!(sent, vec![1, 12]);
    assert_eq!(backlog.quota, 0);
}

#[test]
fn full_backlog_drops_the_oldest() {
    let mut backlog: Backlog<usize> = Backlog::new();
    for i in 0..(MAX_BUFFER_CHUNKS + 2) {
        let _ = backlog.route(i, ListenerRouting::Buffering);
    }
    assert_eq!(backlog.buffer.len(), MAX_BUFFER_CHUNKS);
    assert_eq!(backlog.buffer.pop(), Some(2));
}

#[test]
fn sink_audio_picks_channels() {
    assert!(matches!(sink_audio(1, 2, ChannelMode::MicOnly), SinkAudio::Single(1)));
    assert!(matches!(sink_audio(1, 2, ChannelMode::SpeakerOnly), SinkAudio::Single(2)));
    assert!(matches!(sink_audio(1, 2, ChannelMode::MicAndSpeaker), SinkAudio::Dual(1, 2)));
}

#[test]
fn a_zero_capacity_buffer_still_holds_the_newest_frame() {
    let mut b: AudioBuffer<u32> = AudioBuffer::new(0);
    b.push(1);
    b.push(2);
    assert_eq!(b.len(), 1);
    assert_eq!(b.pop(), Some(2));
    assert!(b.is_empty());
}
