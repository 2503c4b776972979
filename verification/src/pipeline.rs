//! Routing of captured audio: joining microphone and speaker chunks into frames, and
//! holding frames back while no listener is attached.
//!
//! Chunks and frames are opaque here; the front end processes the samples (echo
//! cancellation, voice masking, levels) and fills in silence where a pair has one side.

use vstd::prelude::*;
use std::collections::VecDeque;
use crate::bounded::{last_n, lemma_last_n_push};

verus! {

/// How many frames are held while no listener is attached.
pub const MAX_BUFFER_CHUNKS: usize = 150;

/// How many chunks one side may run ahead before it is sent with silence on the other.
pub const MAX_LAG: usize = 4;

/// How many chunks each side's queue holds.
pub const MAX_QUEUE_SIZE: usize = 30;

/// The backlog quota is counted in quarters of a frame: each flush earns a quarter,
/// at most two frames' worth is held, and a frame is sent per full unit.
pub const QUOTA_INCREMENT: u8 = 1;
pub const MAX_QUOTA: u8 = 8;
pub const QUOTA_PER_FRAME: u8 = 4;

/// Which channels a session captures.
#[derive(Clone, Copy, Debug, PartialEq, Eq, Structural)]
pub enum ChannelMode {
    MicOnly,
    SpeakerOnly,
    MicAndSpeaker,
}

/// Where processed audio goes: to the attached listener (by its id), held back, or nowhere.
#[derive(Clone, Copy, Debug, PartialEq, Eq, Structural)]
pub enum ListenerRouting {
    Attached(u64),
    Buffering,
    Dropped,
}

/// A pair of chunks taken from the two queues; a side that is missing is to be silence
/// as long as the side that is present.
#[derive(Debug)]
pub enum JoinedPair<T> {
    Both(T, T),
    MicWithSilence(T),
    SpeakerWithSilence(T),
}

/// What a sink receives for a frame in a mode: one channel or both.
#[derive(Debug)]
pub enum SinkAudio<T> {
    Single(T),
    Dual(T, T),
}

/// The audio a recorder or listener receives for a frame: the microphone alone, the
/// speaker alone, or both.
pub fn sink_audio<T>(mic: T, spk: T, mode: ChannelMode) -> (r: SinkAudio<T>)
    ensures
        r == match mode {
            ChannelMode::MicOnly => SinkAudio::Single(mic),
            ChannelMode::SpeakerOnly => SinkAudio::Single(spk),
            ChannelMode::MicAndSpeaker => SinkAudio::Dual(mic, spk),
        },
{
    match mode {
        ChannelMode::MicOnly => SinkAudio::Single(mic),
        ChannelMode::SpeakerOnly => SinkAudio::Single(spk),
        ChannelMode::MicAndSpeaker => SinkAudio::Dual(mic, spk),
    }
}

/// Pairs microphone chunks with speaker chunks as they arrive.
pub struct Joiner<T> {
    mic: VecDeque<T>,
    spk: VecDeque<T>,
}

/// What taking a pair does to the queues `mic` and `spk`: the pair taken, and the queues
/// after.
pub open spec fn pop_pair_spec<T>(mic: Seq<T>, spk: Seq<T>, mode: ChannelMode) -> (
    Option<JoinedPair<T>>,
    Seq<T>,
    Seq<T>,
) {
    if mic.len() > 0 && spk.len() > 0 {
        (Some(JoinedPair::Both(mic[0], spk[0])), mic.drop_first(), spk.drop_first())
    } else {
        match mode {
            ChannelMode::MicOnly => if mic.len() > 0 {
                (Some(JoinedPair::MicWithSilence(mic[0])), mic.drop_first(), spk)
            } else {
                (None, mic, spk)
            },
            ChannelMode::SpeakerOnly => if spk.len() > 0 {
                (Some(JoinedPair::SpeakerWithSilence(spk[0])), mic, spk.drop_first())
            } else {
                (None, mic, spk)
            },
            ChannelMode::MicAndSpeaker => if mic.len() > MAX_LAG && spk.len() == 0 {
                (Some(JoinedPair::MicWithSilence(mic[0])), mic.drop_first(), spk)
            } else if spk.len() > MAX_LAG && mic.len() == 0 {
                (Some(JoinedPair::SpeakerWithSilence(spk[0])), mic, spk.drop_first())
            } else {
                (None, mic, spk)
            },
        }
    }
}

/// The same pair seen with microphone and speaker exchanged.
pub open spec fn mirrored<T>(p: Option<JoinedPair<T>>) -> Option<JoinedPair<T>> {
    match p {
        Some(JoinedPair::Both(m, s)) => Some(JoinedPair::Both(s, m)),
        Some(JoinedPair::MicWithSilence(m)) => Some(JoinedPair::SpeakerWithSilence(m)),
        Some(JoinedPair::SpeakerWithSilence(s)) => Some(JoinedPair::MicWithSilence(s)),
        None => None,
    }
}

/// The mode with microphone and speaker exchanged.
pub open spec fn mirrored_mode(mode: ChannelMode) -> ChannelMode {
    match mode {
        ChannelMode::MicOnly => ChannelMode::SpeakerOnly,
        ChannelMode::SpeakerOnly => ChannelMode::MicOnly,
        ChannelMode::MicAndSpeaker => ChannelMode::MicAndSpeaker,
    }
}

/// Joining treats the two sides alike: exchanging the microphone and speaker queues (and
/// the mode's sides) exchanges the sides of the pair taken and of the queues left.
pub proof fn law_joining_is_symmetric<T>(mic: Seq<T>, spk: Seq<T>, mode: ChannelMode)
    ensures
        pop_pair_spec(spk, mic, mirrored_mode(mode)).0 == mirrored(pop_pair_spec(mic, spk, mode).0),
        pop_pair_spec(spk, mic, mirrored_mode(mode)).1 == pop_pair_spec(mic, spk, mode).2,
        pop_pair_spec(spk, mic, mirrored_mode(mode)).2 == pop_pair_spec(mic, spk, mode).1,
{
}

/// When both sides are captured and one side runs more than four chunks (`MAX_LAG`) ahead of an
/// empty other side, its oldest chunk goes out with silence, whichever side it is; no
/// chunk is held back past that.
pub proof fn law_lagging_side_goes_out_with_silence<T>(mic: Seq<T>, spk: Seq<T>)
    ensures
        mic.len() == 0 && spk.len() > 4 ==> pop_pair_spec(mic, spk, ChannelMode::MicAndSpeaker) == (
            Some(JoinedPair::SpeakerWithSilence(spk[0])),
            mic,
            spk.drop_first(),
        ),
        spk.len() == 0 && mic.len() > 4 ==> pop_pair_spec(mic, spk, ChannelMode::MicAndSpeaker) == (
            Some(JoinedPair::MicWithSilence(mic[0])),
            mic.drop_first(),
            spk,
        ),
        mic.len() > 0 && spk.len() > 0 ==> pop_pair_spec(mic, spk, ChannelMode::MicAndSpeaker).0 == Some(
            JoinedPair::Both(mic[0], spk[0]),
        ),
{
}

impl<T> Joiner<T> {
    /// The microphone chunks waiting, oldest first.
    pub closed spec fn mic_queue(&self) -> Seq<T> {
        self.mic@
    }

    /// The speaker chunks waiting, oldest first.
    pub closed spec fn spk_queue(&self) -> Seq<T> {
        self.spk@
    }

    /// Neither queue holds more than `MAX_QUEUE_SIZE` chunks.
    pub open spec fn wf(&self) -> bool {
        self.mic_queue().len() <= MAX_QUEUE_SIZE && self.spk_queue().len() <= MAX_QUEUE_SIZE
    }

    pub fn new() -> (r: Self)
        ensures
            r.wf(),
            r.mic_queue().len() == 0,
            r.spk_queue().len() == 0,
    {
        Joiner { mic: VecDeque::new(), spk: VecDeque::new() }
    }

    /// Drops every waiting chunk.
    pub fn reset(&mut self)
        ensures
            final(self).wf(),
            final(self).mic_queue().len() == 0,
            final(self).spk_queue().len() == 0,
    {
        self.mic.clear();
        self.spk.clear();
    }

    /// Queues a microphone chunk; past `MAX_QUEUE_SIZE` the oldest is dropped.
    pub fn push_mic(&mut self, data: T)
        requires
            old(self).wf(),
        ensures
            final(self).wf(),
            final(self).mic_queue() == last_n(old(self).mic_queue().push(data), MAX_QUEUE_SIZE as nat),
            final(self).spk_queue() == old(self).spk_queue(),
    {
        self.mic.push_back(data);
        if self.mic.len() > MAX_QUEUE_SIZE {
            let _ = self.mic.pop_front();
            assert(self.mic@ =~= last_n(old(self).mic@.push(data), MAX_QUEUE_SIZE as nat));
        }
    }

    /// Queues a speaker chunk; past `MAX_QUEUE_SIZE` the oldest is dropped.
    pub fn push_spk(&mut self, data: T)
        requires
            old(self).wf(),
        ensures
            final(self).wf(),
            final(self).spk_queue() == last_n(old(self).spk_queue().push(data), MAX_QUEUE_SIZE as nat),
            final(self).mic_queue() == old(self).mic_queue(),
    {
        self.spk.push_back(data);
        if self.spk.len() > MAX_QUEUE_SIZE {
            let _ = self.spk.pop_front();
            assert(self.spk@ =~= last_n(old(self).spk@.push(data), MAX_QUEUE_SIZE as nat));
        }
    }

    /// Takes the next pair: the two oldest chunks when both sides have one; otherwise a
    /// lone chunk when the mode captures only its side, or when both are captured and
    /// its side runs more than `MAX_LAG` chunks ahead of an empty other side.
    pub fn pop_pair(&mut self, mode: ChannelMode) -> (r: Option<JoinedPair<T>>)
        requires
            old(self).wf(),
        ensures
            final(self).wf(),
            (r, final(self).mic_queue(), final(self).spk_queue()) == pop_pair_spec(
                old(self).mic_queue(),
                old(self).spk_queue(),
                mode,
            ),
    {
        let mic_len = self.mic.len();
        let spk_len = self.spk.len();
        if mic_len > 0 && spk_len > 0 {
            let m = self.mic.pop_front();
            let s = self.spk.pop_front();
            return match (m, s) {
                (Some(m), Some(s)) => Some(JoinedPair::Both(m, s)),
                _ => None,
            };
        }
        let take_mic = match mode {
            ChannelMode::MicOnly => mic_len > 0,
            ChannelMode::SpeakerOnly => false,
            ChannelMode::MicAndSpeaker => mic_len > MAX_LAG && spk_len == 0,
        };
        let take_spk = match mode {
            ChannelMode::MicOnly => false,
            ChannelMode::SpeakerOnly => spk_len > 0,
            ChannelMode::MicAndSpeaker => spk_len > MAX_LAG && mic_len == 0,
        };
        if take_mic {
            match self.mic.pop_front() {
                Some(m) => Some(JoinedPair::MicWithSilence(m)),
                None => None,
            }
        } else if take_spk {
            match self.spk.pop_front() {
                Some(s) => Some(JoinedPair::SpeakerWithSilence(s)),
                None => None,
            }
        } else {
            None
        }
    }
}

/// Frames held back while no listener is attached, oldest first; past its capacity the
/// oldest is dropped and the buffer reports that it overflowed.
pub struct AudioBuffer<F> {
    buffer: VecDeque<F>,
    max_size: usize,
    overflowing: bool,
}

impl<F> AudioBuffer<F> {
    /// The frames held, oldest first.
    pub closed spec fn frames(&self) -> Seq<F> {
        self.buffer@
    }

    pub closed spec fn capacity(&self) -> nat {
        self.max_size as nat
    }

    pub closed spec fn overflowed(&self) -> bool {
        self.overflowing
    }

    /// How many frames the buffer can hold: its capacity, but one for a capacity of zero,
    /// since a frame is always taken in after the oldest is dropped.
    pub open spec fn limit(&self) -> nat {
        if self.capacity() == 0 {
            1
        } else {
            self.capacity()
        }
    }

    /// The limit is never exceeded.
    pub open spec fn wf(&self) -> bool {
        self.frames().len() <= self.limit()
    }

    pub fn new(max_size: usize) -> (r: Self)
        ensures
            r.wf(),
            r.frames().len() == 0,
            r.capacity() == max_size,
            !r.overflowed(),
    {
        AudioBuffer { buffer: VecDeque::new(), max_size, overflowing: false }
    }

    /// Holds a frame; when full, the oldest is dropped first.
    pub fn push(&mut self, frame: F)
        requires
            old(self).wf(),
        ensures
            final(self).wf(),
            final(self).capacity() == old(self).capacity(),
            final(self).frames() == last_n(old(self).frames().push(frame), old(self).limit()),
            final(self).overflowed() == (old(self).overflowed() || old(self).frames().len()
                >= old(self).capacity()),
    {
        if self.buffer.len() >= self.max_size {
            let _ = self.buffer.pop_front();
            if !self.overflowing {
                self.overflowing = true;
            }
        }
        self.buffer.push_back(frame);
        assert(self.buffer@ =~= last_n(old(self).buffer@.push(frame), self.limit()));
    }

    /// Takes the oldest frame; the overflow report ends once the buffer is below capacity.
    pub fn pop(&mut self) -> (r: Option<F>)
        requires
            old(self).wf(),
        ensures
            final(self).wf(),
            final(self).capacity() == old(self).capacity(),
            old(self).frames().len() == 0 ==> r is None && final(self).frames() == old(self).frames(),
            old(self).frames().len() > 0 ==> r == Some(old(self).frames()[0]) && final(self).frames()
                == old(self).frames().drop_first(),
            final(self).overflowed() == (old(self).overflowed() && final(self).frames().len()
                >= final(self).capacity()),
    {
        let item = self.buffer.pop_front();
        if self.overflowing && self.buffer.len() < self.max_size {
            self.overflowing = false;
        }
        item
    }

    pub fn len(&self) -> (r: usize)
        ensures
            r == self.frames().len(),
    {
        self.buffer.len()
    }

    pub fn is_empty(&self) -> (r: bool)
        ensures
            r == (self.frames().len() == 0),
    {
        self.buffer.len() == 0
    }

    /// Drops every frame.
    pub fn clear(&mut self)
        requires
            old(self).wf(),
        ensures
            final(self).wf(),
            final(self).capacity() == old(self).capacity(),
            final(self).frames().len() == 0,
            !final(self).overflowed(),
    {
        self.buffer.clear();
        self.overflowing = false;
    }
}

/// Frames held for the listener, with the quota that paces how fast they are sent once
/// a listener is attached.
pub struct Backlog<F> {
    pub buffer: AudioBuffer<F>,
    pub quota: u8,
}

/// How many held frames a flush sends when the buffer holds `held` frames and the quota
/// is `quota` quarters.
pub open spec fn flushed_count(held: nat, quota: nat) -> nat {
    let earned = if quota + QUOTA_INCREMENT > MAX_QUOTA {
        MAX_QUOTA as nat
    } else {
        (quota + QUOTA_INCREMENT) as nat
    };
    if held == 0 {
        0
    } else if earned / (QUOTA_PER_FRAME as nat) < held {
        earned / (QUOTA_PER_FRAME as nat)
    } else {
        held
    }
}

/// The quota after such a flush.
pub open spec fn flushed_quota(held: nat, quota: nat) -> nat {
    let earned = if quota + QUOTA_INCREMENT > MAX_QUOTA {
        MAX_QUOTA as nat
    } else {
        (quota + QUOTA_INCREMENT) as nat
    };
    if held == 0 {
        quota
    } else {
        (earned - QUOTA_PER_FRAME * flushed_count(held, quota)) as nat
    }
}

impl<F> Backlog<F> {
    /// The buffer is well formed and the quota within its bound.
    pub open spec fn wf(&self) -> bool {
        self.buffer.wf() && self.quota <= MAX_QUOTA
    }

    /// An empty backlog holding up to `MAX_BUFFER_CHUNKS` frames.
    pub fn new() -> (r: Self)
        ensures
            r.wf(),
            r.buffer.frames().len() == 0,
            r.buffer.capacity() == MAX_BUFFER_CHUNKS,
            r.quota == 0,
    {
        Backlog { buffer: AudioBuffer::new(MAX_BUFFER_CHUNKS), quota: 0 }
    }

    /// Drops every held frame and the quota.
    pub fn reset(&mut self)
        requires
            old(self).wf(),
        ensures
            final(self).wf(),
            final(self).buffer.frames().len() == 0,
            final(self).buffer.capacity() == old(self).buffer.capacity(),
            final(self).quota == 0,
    {
        self.buffer.clear();
        self.quota = 0;
    }

    /// Sends held frames to the listener, oldest first, as far as the quota allows; a
    /// flush earns a quarter of a frame, up to two frames' worth.
    pub fn flush_to_listener(&mut self) -> (sent: Vec<F>)
        requires
            old(self).wf(),
        ensures
            final(self).wf(),
            final(self).buffer.capacity() == old(self).buffer.capacity(),
            sent@ == old(self).buffer.frames().take(
                flushed_count(old(self).buffer.frames().len(), old(self).quota as nat) as int,
            ),
            final(self).buffer.frames() == old(self).buffer.frames().skip(
                flushed_count(old(self).buffer.frames().len(), old(self).quota as nat) as int,
            ),
            final(self).quota == flushed_quota(old(self).buffer.frames().len(), old(self).quota as nat),
            sent@ + final(self).buffer.frames() == old(self).buffer.frames(),
    {
        let mut sent: Vec<F> = Vec::new();
        if !self.buffer.is_empty() {
            let ghost held = self.buffer.frames();
            self.quota = if self.quota + QUOTA_INCREMENT > MAX_QUOTA {
                MAX_QUOTA
            } else {
                self.quota + QUOTA_INCREMENT
            };
            let ghost earned = self.quota as nat;
            let ghost k = flushed_count(held.len(), old(self).quota as nat);
            while self.quota >= QUOTA_PER_FRAME
                invariant_except_break
                    self.buffer.wf(),
                    self.quota <= MAX_QUOTA,
                    self.buffer.capacity() == old(self).buffer.capacity(),
                    earned == self.quota + QUOTA_PER_FRAME * sent@.len(),
                    sent@.len() <= held.len(),
                    sent@.len() <= k,
                    k == if earned / 4 < held.len() { earned / 4 } else { held.len() },
                    sent@ == held.take(sent@.len() as int),
                    self.buffer.frames() == held.skip(sent@.len() as int),
                ensures
                    self.buffer.wf(),
                    self.quota <= MAX_QUOTA,
                    self.buffer.capacity() == old(self).buffer.capacity(),
                    sent@.len() == k,
                    earned == self.quota + QUOTA_PER_FRAME * sent@.len(),
                    sent@ == held.take(sent@.len() as int),
                    self.buffer.frames() == held.skip(sent@.len() as int),
                decreases self.quota,
            {
                match self.buffer.pop() {
                    Some(frame) => {
                        proof {
                            assert(held.take(sent@.len() as int + 1) =~= held.take(sent@.len() as int).push(frame));
                            assert(held.skip(sent@.len() as int + 1) =~= held.skip(sent@.len() as int).drop_first());
                        }
                        sent.push(frame);
                        self.quota = self.quota - QUOTA_PER_FRAME;
                    },
                    None => {
                        break;
                    },
                }
            }
            assert(sent@ + self.buffer.frames() =~= held);
        } else {
            assert(sent@ + self.buffer.frames() =~= self.buffer.frames());
        }
        sent
    }

    /// Routes a processed frame: held while buffering; sent after the held frames that
    /// the quota lets through while a listener is attached; dropped otherwise.
    pub fn route(&mut self, frame: F, routing: ListenerRouting) -> (sent: Vec<F>)
        requires
            old(self).wf(),
        ensures
            final(self).wf(),
            final(self).buffer.capacity() == old(self).buffer.capacity(),
            match routing {
                ListenerRouting::Buffering => {
                    &&& sent@.len() == 0
                    &&& final(self).buffer.frames() == last_n(
                        old(self).buffer.frames().push(frame),
                        old(self).buffer.limit(),
                    )
                    &&& final(self).quota == old(self).quota
                },
                ListenerRouting::Attached(_) => {
                    let k = flushed_count(old(self).buffer.frames().len(), old(self).quota as nat);
                    &&& sent@ == old(self).buffer.frames().take(k as int).push(frame)
                    &&& final(self).buffer.frames() == old(self).buffer.frames().skip(k as int)
                    &&& final(self).quota == flushed_quota(old(self).buffer.frames().len(), old(self).quota as nat)
                },
                ListenerRouting::Dropped => {
                    &&& sent@.len() == 0
                    &&& final(self).buffer.frames() == old(self).buffer.frames()
                    &&& final(self).quota == old(self).quota
                },
            },
    {
        match routing {
            ListenerRouting::Buffering => {
                self.buffer.push(frame);
                Vec::new()
            },
            ListenerRouting::Attached(_) => {
                let mut sent = self.flush_to_listener();
                sent.push(frame);
                sent
            },
            ListenerRouting::Dropped => Vec::new(),
        }
    }

    /// Follows a change of routing: an attached listener gets held frames at once, at
    /// least one frame's worth; a dropped listener clears the backlog.
    pub fn on_routing_changed(&mut self, routing: ListenerRouting) -> (sent: Vec<F>)
        requires
            old(self).wf(),
        ensures
            final(self).wf(),
            final(self).buffer.capacity() == old(self).buffer.capacity(),
            match routing {
                ListenerRouting::Buffering => {
                    &&& sent@.len() == 0
                    &&& final(self).buffer.frames() == old(self).buffer.frames()
                    &&& final(self).quota == old(self).quota
                },
                ListenerRouting::Attached(_) => {
                    let held = old(self).buffer.frames();
                    let q = if held.len() > 0 && old(self).quota < QUOTA_PER_FRAME {
                        QUOTA_PER_FRAME as nat
                    } else {
                        old(self).quota as nat
                    };
                    &&& sent@ == held.take(flushed_count(held.len(), q) as int)
                    &&& final(self).buffer.frames() == held.skip(flushed_count(held.len(), q) as int)
                    &&& final(self).quota == flushed_quota(held.len(), q)
                },
                ListenerRouting::Dropped => {
                    &&& sent@.len() == 0
                    &&& final(self).buffer.frames().len() == 0
                    &&& final(self).quota == 0
                },
            },
    {
        match routing {
            ListenerRouting::Buffering => Vec::new(),
            ListenerRouting::Attached(_) => {
                if !self.buffer.is_empty() && self.quota < QUOTA_PER_FRAME {
                    self.quota = QUOTA_PER_FRAME;
                }
                self.flush_to_listener()
            },
            ListenerRouting::Dropped => {
                self.buffer.clear();
                self.quota = 0;
                Vec::new()
            },
        }
    }
}

/// While frames are held, every flush sends at least one of them or earns a quarter of
/// a frame; it never sends more than two, and the quota stays within two frames' worth.
pub proof fn law_flush_makes_progress(held: nat, quota: nat)
    requires
        held > 0,
        quota <= MAX_QUOTA,
    ensures
        flushed_count(held, quota) > 0 || flushed_quota(held, quota) == quota + 1,
        flushed_count(held, quota) <= 2,
        flushed_count(held, quota) <= held,
        flushed_quota(held, quota) <= MAX_QUOTA,
{
}

/// Attaching a listener to a non-empty backlog sends at least its oldest frame at once.
pub proof fn law_attach_sends_oldest(held: nat, quota: nat)
    requires
        held > 0,
        quota <= MAX_QUOTA,
    ensures
        flushed_count(held, if quota < QUOTA_PER_FRAME { QUOTA_PER_FRAME as nat } else { quota }) >= 1,
{
}

} // verus!
