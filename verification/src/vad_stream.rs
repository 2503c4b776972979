//! Chunking a stream of audio samples for voice-activity detection: samples are gathered
//! into fixed-size chunks, each chunk is passed on as audio followed by the speech
//! transitions the detector found in it, and what is left when the source ends is passed
//! on with the detector's final transitions.
//!
//! The front end polls the source and runs the detector; it hands each sample and each
//! detector result back here and yields the items taken out.

use vstd::prelude::*;
use std::collections::VecDeque;
use crate::vad_errors::Error;

verus! {

/// The only sample rate the detector accepts.
pub const SAMPLE_RATE: u32 = 16000;

/// A speech transition the detector reports.
#[derive(Debug)]
pub enum VadTransition<T> {
    SpeechStart { timestamp_ms: usize },
    SpeechEnd { start_timestamp_ms: usize, end_timestamp_ms: usize, samples: Vec<T> },
}

/// What the stream yields.
#[derive(Debug)]
pub enum VadStreamItem<T> {
    AudioSamples(Vec<T>),
    SpeechStart { timestamp_ms: usize },
    SpeechEnd { start_timestamp_ms: usize, end_timestamp_ms: usize, samples: Vec<T> },
}

/// A stretch of speech.
#[derive(Debug)]
pub struct AudioChunk<T> {
    pub samples: Vec<T>,
    pub start_timestamp_ms: usize,
    pub end_timestamp_ms: usize,
}

/// What polling the stream gives: the next item, the end of the stream, or the need for
/// the next sample from the source.
#[derive(Debug)]
pub enum PollStep<T> {
    Ready(VadStreamItem<T>),
    End,
    NeedSample,
}

/// The item a transition becomes.
pub open spec fn transition_item<T>(t: VadTransition<T>) -> VadStreamItem<T> {
    match t {
        VadTransition::SpeechStart { timestamp_ms } => VadStreamItem::SpeechStart { timestamp_ms },
        VadTransition::SpeechEnd { start_timestamp_ms, end_timestamp_ms, samples } => VadStreamItem::SpeechEnd {
            start_timestamp_ms,
            end_timestamp_ms,
            samples,
        },
    }
}

/// The audio an item carries as plain audio.
pub open spec fn item_audio<T>(item: VadStreamItem<T>) -> Seq<T> {
    match item {
        VadStreamItem::AudioSamples(s) => s@,
        _ => Seq::empty(),
    }
}

/// The audio that items carry as plain audio, in order.
pub open spec fn audio_of<T>(items: Seq<VadStreamItem<T>>) -> Seq<T>
    decreases items.len(),
{
    if items.len() == 0 {
        Seq::empty()
    } else {
        audio_of(items.drop_last()) + item_audio(items.last())
    }
}

/// The items that transitions become.
pub open spec fn transition_items<T>(ts: Seq<VadTransition<T>>) -> Seq<VadStreamItem<T>> {
    ts.map_values(|t: VadTransition<T>| transition_item(t))
}

proof fn lemma_audio_of_push<T>(items: Seq<VadStreamItem<T>>, x: VadStreamItem<T>)
    ensures
        audio_of(items.push(x)) == audio_of(items) + item_audio(x),
{
    assert(items.push(x).drop_last() =~= items);
}

proof fn lemma_audio_of_transitions<T>(ts: Seq<VadTransition<T>>)
    ensures
        audio_of(transition_items(ts)) == Seq::<T>::empty(),
    decreases ts.len(),
{
    if ts.len() > 0 {
        lemma_audio_of_transitions(ts.drop_last());
        assert(transition_items(ts).drop_last() =~= transition_items(ts.drop_last()));
    }
}

proof fn lemma_audio_of_concat<T>(a: Seq<VadStreamItem<T>>, b: Seq<VadStreamItem<T>>)
    ensures
        audio_of(a + b) == audio_of(a) + audio_of(b),
    decreases b.len(),
{
    if b.len() == 0 {
        assert(a + b =~= a);
    } else {
        lemma_audio_of_concat(a, b.drop_last());
        assert((a + b).drop_last() =~= a + b.drop_last());
        assert(audio_of(a) + audio_of(b.drop_last()) + item_audio(b.last()) =~= audio_of(a) + (audio_of(
            b.drop_last(),
        ) + item_audio(b.last())));
    }
}

proof fn lemma_audio_of_drop_first<T>(items: Seq<VadStreamItem<T>>)
    requires
        items.len() > 0,
    ensures
        audio_of(items) == item_audio(items[0]) + audio_of(items.drop_first()),
{
    assert(items =~= seq![items[0]] + items.drop_first());
    lemma_audio_of_concat(seq![items[0]], items.drop_first());
    assert(seq![items[0]].drop_last() =~= Seq::<VadStreamItem<T>>::empty());
    assert(audio_of(Seq::<VadStreamItem<T>>::empty()) =~= Seq::<T>::empty());
    assert(audio_of(seq![items[0]]) =~= item_audio(items[0]));
}

/// Refuses a source whose sample rate the detector does not take.
pub fn check_sample_rate(sample_rate: u32) -> (r: Result<(), Error>)
    ensures
        sample_rate == SAMPLE_RATE ==> r is Ok,
        sample_rate != SAMPLE_RATE ==> (r matches Err(Error::UnsupportedSampleRate(got)) && got == sample_rate),
{
    if sample_rate != SAMPLE_RATE {
        Err(Error::UnsupportedSampleRate(sample_rate))
    } else {
        Ok(())
    }
}

/// Only the stretches of speech are kept as chunks; errors are passed on.
pub fn speech_chunk<T>(item: Result<VadStreamItem<T>, Error>) -> (r: Option<Result<AudioChunk<T>, Error>>)
    ensures
        match item {
            Ok(VadStreamItem::SpeechEnd { start_timestamp_ms, end_timestamp_ms, samples }) => r == Some(
                Ok::<AudioChunk<T>, Error>(AudioChunk { samples, start_timestamp_ms, end_timestamp_ms }),
            ),
            Ok(_) => r is None,
            Err(e) => r == Some(Err::<AudioChunk<T>, Error>(e)),
        },
{
    match item {
        Ok(VadStreamItem::SpeechEnd { start_timestamp_ms, end_timestamp_ms, samples }) => Some(
            Ok(AudioChunk { samples, start_timestamp_ms, end_timestamp_ms }),
        ),
        Ok(_) => None,
        Err(e) => Some(Err(e)),
    }
}

/// The chunking state of one stream.
pub struct VadChunker<T> {
    chunk_size: usize,
    buffer: Vec<T>,
    pending: VecDeque<VadStreamItem<T>>,
    finalized: bool,
    /// What the source gave so far.
    received: Ghost<Seq<T>>,
    /// The audio of the items taken out so far.
    emitted: Ghost<Seq<T>>,
    /// The samples handed to the detector and not yet back.
    in_flight: Ghost<Seq<T>>,
    /// No detector error lost samples.
    intact: Ghost<bool>,
}

impl<T> VadChunker<T> {
    pub closed spec fn size(&self) -> nat {
        self.chunk_size as nat
    }

    pub closed spec fn buffered(&self) -> Seq<T> {
        self.buffer@
    }

    pub closed spec fn queued(&self) -> Seq<VadStreamItem<T>> {
        self.pending@
    }

    pub closed spec fn is_finalized(&self) -> bool {
        self.finalized
    }

    pub closed spec fn received(&self) -> Seq<T> {
        self.received@
    }

    pub closed spec fn emitted(&self) -> Seq<T> {
        self.emitted@
    }

    pub closed spec fn in_flight(&self) -> Seq<T> {
        self.in_flight@
    }

    pub closed spec fn intact(&self) -> bool {
        self.intact@
    }

    /// While no detector error lost samples, every sample received is, in order, either
    /// taken out as audio, queued as audio, with the detector, or buffered.
    pub open spec fn wf(&self) -> bool {
        &&& self.size() > 0
        &&& self.buffered().len() < self.size() || self.in_flight().len() == 0
        &&& self.is_finalized() ==> self.buffered().len() == 0 && self.in_flight().len() == 0
        &&& self.intact() ==> self.emitted() + audio_of(self.queued()) + self.in_flight() + self.buffered()
            == self.received()
    }

    /// A stream gathering chunks of `chunk_size` samples.
    pub fn new(chunk_size: usize) -> (r: Self)
        requires
            chunk_size > 0,
        ensures
            r.wf(),
            r.size() == chunk_size,
            r.buffered().len() == 0,
            r.queued().len() == 0,
            !r.is_finalized(),
            r.received().len() == 0,
            r.emitted().len() == 0,
            r.in_flight().len() == 0,
            r.intact(),
    {
        VadChunker {
            chunk_size,
            buffer: Vec::new(),
            pending: VecDeque::new(),
            finalized: false,
            received: Ghost(Seq::empty()),
            emitted: Ghost(Seq::empty()),
            in_flight: Ghost(Seq::empty()),
            intact: Ghost(true),
        }
    }

    /// The source ended and everything was passed on.
    pub fn finalized(&self) -> (r: bool)
        ensures
            r == self.is_finalized(),
    {
        self.finalized
    }

    /// What a poll does: a queued item is taken out first; with nothing queued, a finished
    /// stream has ended and any other needs the next sample. Nothing else changes.
    pub open spec fn poll_post(self, next: Self, r: PollStep<T>) -> bool {
        &&& next.wf() == self.wf()
        &&& next.size() == self.size()
        &&& next.buffered() == self.buffered()
        &&& next.in_flight() == self.in_flight()
        &&& next.received() == self.received()
        &&& next.is_finalized() == self.is_finalized()
        &&& next.intact() == self.intact()
        &&& if self.queued().len() > 0 {
            &&& r == PollStep::Ready(self.queued()[0])
            &&& next.queued() == self.queued().drop_first()
            &&& next.emitted() == self.emitted() + item_audio(self.queued()[0])
        } else {
            &&& next.queued() == self.queued()
            &&& next.emitted() == self.emitted()
            &&& if self.is_finalized() {
                r is End
            } else {
                r is NeedSample
            }
        }
    }

    /// Polls the stream.
    pub fn poll_step(&mut self) -> (r: PollStep<T>)
        requires
            old(self).wf(),
        ensures
            final(self).wf(),
            old(self).poll_post(*final(self), r),
    {
        let ghost q = self.pending@;
        match self.pop_ready() {
            Some(item) => {
                proof {
                    lemma_audio_of_drop_first(q);
                }
                PollStep::Ready(item)
            },
            None => if self.finalized {
                PollStep::End
            } else {
                PollStep::NeedSample
            },
        }
    }

    /// Takes out the next item that is ready.
    pub fn pop_ready(&mut self) -> (r: Option<VadStreamItem<T>>)
        requires
            old(self).wf(),
        ensures
            final(self).wf(),
            final(self).size() == old(self).size(),
            final(self).buffered() == old(self).buffered(),
            final(self).in_flight() == old(self).in_flight(),
            final(self).received() == old(self).received(),
            final(self).is_finalized() == old(self).is_finalized(),
            final(self).intact() == old(self).intact(),
            old(self).queued().len() == 0 ==> r is None && final(self).queued() == old(self).queued()
                && final(self).emitted() == old(self).emitted(),
            old(self).queued().len() > 0 ==> r == Some(old(self).queued()[0]) && final(self).queued()
                == old(self).queued().drop_first() && final(self).emitted() == old(self).emitted() + item_audio(
                old(self).queued()[0],
            ),
    {
        let r = self.pending.pop_front();
        match &r {
            Some(item) => {
                proof {
                    lemma_audio_of_drop_first(old(self).pending@);
                    let a = item_audio(*item);
                    self.emitted@ = self.emitted@ + a;
                    assert(old(self).pending@.drop_first() =~= self.pending@);
                    assert(self.emitted@ + audio_of(self.pending@) + self.in_flight@ + self.buffer@ =~= old(
                        self,
                    ).emitted@ + (a + audio_of(self.pending@)) + self.in_flight@ + self.buffer@);
                }
            },
            None => {},
        }
        r
    }

    /// Takes a sample from the source; says whether a full chunk is ready for the
    /// detector.
    pub fn push_sample(&mut self, sample: T) -> (full: bool)
        requires
            old(self).wf(),
            old(self).in_flight().len() == 0,
            old(self).buffered().len() < old(self).size(),
            !old(self).is_finalized(),
        ensures
            final(self).wf(),
            final(self).size() == old(self).size(),
            final(self).buffered() == old(self).buffered().push(sample),
            final(self).queued() == old(self).queued(),
            final(self).received() == old(self).received().push(sample),
            final(self).emitted() == old(self).emitted(),
            final(self).in_flight() == old(self).in_flight(),
            final(self).is_finalized() == old(self).is_finalized(),
            final(self).intact() == old(self).intact(),
            full == (final(self).buffered().len() == final(self).size()),
    {
        self.buffer.push(sample);
        proof {
            self.received@ = self.received@.push(sample);
            assert(self.emitted@ + audio_of(self.pending@) + self.in_flight@ + self.buffer@ =~= (old(self).emitted@
                + audio_of(old(self).pending@) + old(self).in_flight@ + old(self).buffer@).push(sample));
        }
        self.buffer.len() == self.chunk_size
    }

    /// Hands the full chunk to the detector.
    pub fn take_chunk(&mut self) -> (chunk: Vec<T>)
        requires
            old(self).wf(),
            old(self).buffered().len() == old(self).size(),
            old(self).in_flight().len() == 0,
        ensures
            final(self).wf(),
            final(self).size() == old(self).size(),
            chunk@ == old(self).buffered(),
            final(self).buffered().len() == 0,
            final(self).in_flight() == chunk@,
            final(self).queued() == old(self).queued(),
            final(self).received() == old(self).received(),
            final(self).emitted() == old(self).emitted(),
            final(self).is_finalized() == old(self).is_finalized(),
            final(self).intact() == old(self).intact(),
    {
        let rest = self.buffer.split_off(self.chunk_size);
        let mut chunk = rest;
        std::mem::swap(&mut chunk, &mut self.buffer);
        proof {
            assert(chunk@ =~= old(self).buffer@);
            self.in_flight@ = chunk@;
            assert(self.buffer@ =~= Seq::<T>::empty());
            assert(self.in_flight@ + self.buffer@ =~= old(self).in_flight@ + old(self).buffer@);
        }
        chunk
    }

    /// The detector's answer for the chunk: on success the chunk is queued as audio
    /// followed by the transitions found in it, and the first item is taken out; a
    /// failure is passed on and the chunk is lost.
    pub fn chunk_processed(
        &mut self,
        chunk: Vec<T>,
        result: Result<Vec<VadTransition<T>>, Error>,
    ) -> (r: Option<Result<VadStreamItem<T>, Error>>)
        requires
            old(self).wf(),
            chunk@ == old(self).in_flight(),
        ensures
            final(self).wf(),
            final(self).size() == old(self).size(),
            final(self).in_flight().len() == 0,
            final(self).buffered() == old(self).buffered(),
            final(self).received() == old(self).received(),
            final(self).is_finalized() == old(self).is_finalized(),
            match result {
                Ok(ts) => {
                    let queued = old(self).queued().push(VadStreamItem::AudioSamples(chunk)) + transition_items(ts@);
                    &&& r == Some(Ok::<VadStreamItem<T>, Error>(queued[0]))
                    &&& final(self).queued() == queued.drop_first()
                    &&& final(self).intact() == old(self).intact()
                },
                Err(e) => {
                    &&& r == Some(Err::<VadStreamItem<T>, Error>(e))
                    &&& final(self).queued() == old(self).queued()
                    &&& !final(self).intact()
                },
            },
    {
        match result {
            Ok(ts) => {
                let ghost before = self.pending@;
                let ghost tsv = ts@;
                let ghost c = chunk@;
                self.pending.push_back(VadStreamItem::AudioSamples(chunk));
                self.push_transitions(ts);
                proof {
                    lemma_audio_of_push(before, VadStreamItem::AudioSamples(chunk));
                    lemma_audio_of_concat(before.push(VadStreamItem::AudioSamples(chunk)), transition_items(tsv));
                    lemma_audio_of_transitions(tsv);
                    self.in_flight@ = Seq::empty();
                    assert(audio_of(self.pending@) =~= audio_of(before) + c);
                    assert(self.emitted@ + audio_of(self.pending@) + self.in_flight@ + self.buffer@ =~= self.emitted@
                        + audio_of(before) + c + self.buffer@);
                }
                match self.pop_ready() {
                    Some(item) => Some(Ok(item)),
                    None => None,
                }
            },
            Err(e) => {
                proof {
                    self.in_flight@ = Seq::empty();
                    self.intact@ = false;
                }
                Some(Err(e))
            },
        }
    }

    fn push_transitions(&mut self, ts: Vec<VadTransition<T>>)
        ensures
            final(self).pending@ == old(self).pending@ + transition_items(ts@),
            final(self).chunk_size == old(self).chunk_size,
            final(self).buffer == old(self).buffer,
            final(self).finalized == old(self).finalized,
            final(self).received == old(self).received,
            final(self).emitted == old(self).emitted,
            final(self).in_flight == old(self).in_flight,
            final(self).intact == old(self).intact,
    {
        let ghost all = ts@;
        let total = ts.len();
        let mut rest = ts;
        let mut i: usize = 0;
        proof {
            assert(old(self).pending@ + transition_items(all.take(0)) =~= old(self).pending@);
            assert(rest@ =~= all.skip(0));
            assert(all.len() == total);
        }
        while rest.len() > 0
            invariant
                i <= all.len(),
                all.len() <= usize::MAX,
                rest@ == all.skip(i as int),
                self.pending@ == old(self).pending@ + transition_items(all.take(i as int)),
                self.chunk_size == old(self).chunk_size,
                self.buffer == old(self).buffer,
                self.finalized == old(self).finalized,
                self.received == old(self).received,
                self.emitted == old(self).emitted,
                self.in_flight == old(self).in_flight,
                self.intact == old(self).intact,
            decreases rest.len(),
        {
            let t = rest.remove(0);
            proof {
                assert(t == all[i as int]);
                assert(rest@ =~= all.skip(i + 1));
            }
            let item = match t {
                VadTransition::SpeechStart { timestamp_ms } => VadStreamItem::SpeechStart { timestamp_ms },
                VadTransition::SpeechEnd { start_timestamp_ms, end_timestamp_ms, samples } => VadStreamItem::SpeechEnd {
                    start_timestamp_ms,
                    end_timestamp_ms,
                    samples,
                },
            };
            self.pending.push_back(item);
            proof {
                assert(all.take(i + 1) =~= all.take(i as int).push(all[i as int]));
                assert(transition_items(all.take(i + 1)) =~= transition_items(all.take(i as int)).push(item));
            }
            i += 1;
        }
        proof {
            assert(all.take(i as int) =~= all);
        }
    }

    /// The source ended: what is buffered goes to the detector's final pass.
    pub fn take_trailing(&mut self) -> (trailing: Vec<T>)
        requires
            old(self).wf(),
            old(self).in_flight().len() == 0,
        ensures
            final(self).wf(),
            final(self).size() == old(self).size(),
            trailing@ == old(self).buffered(),
            final(self).buffered().len() == 0,
            final(self).in_flight() == trailing@,
            final(self).queued() == old(self).queued(),
            final(self).received() == old(self).received(),
            final(self).emitted() == old(self).emitted(),
            final(self).is_finalized() == old(self).is_finalized(),
            final(self).intact() == old(self).intact(),
    {
        let mut trailing = Vec::new();
        std::mem::swap(&mut trailing, &mut self.buffer);
        proof {
            self.in_flight@ = trailing@;
            assert(self.in_flight@ + self.buffer@ =~= old(self).buffer@);
            assert(old(self).in_flight@ + old(self).buffer@ =~= old(self).buffer@);
        }
        trailing
    }

    /// The detector's final pass: the stream is finished; on success the trailing audio
    /// (unless there is none) and the final transitions are queued and the first item is
    /// taken out; a failure is passed on and the trailing audio is lost.
    pub fn finished(
        &mut self,
        trailing: Vec<T>,
        result: Result<Vec<VadTransition<T>>, Error>,
    ) -> (r: Option<Result<VadStreamItem<T>, Error>>)
        requires
            old(self).wf(),
            trailing@ == old(self).in_flight(),
            old(self).buffered().len() == 0,
        ensures
            final(self).wf(),
            final(self).size() == old(self).size(),
            final(self).is_finalized(),
            final(self).in_flight().len() == 0,
            final(self).buffered() == old(self).buffered(),
            final(self).received() == old(self).received(),
            match result {
                Ok(ts) => {
                    let queued = (if trailing@.len() > 0 {
                        old(self).queued().push(VadStreamItem::AudioSamples(trailing))
                    } else {
                        old(self).queued()
                    }) + transition_items(ts@);
                    &&& queued.len() == 0 ==> r is None && final(self).queued().len() == 0
                    &&& queued.len() > 0 ==> r == Some(Ok::<VadStreamItem<T>, Error>(queued[0]))
                        && final(self).queued() == queued.drop_first()
                    &&& final(self).intact() == old(self).intact()
                },
                Err(e) => {
                    &&& r == Some(Err::<VadStreamItem<T>, Error>(e))
                    &&& final(self).queued() == old(self).queued()
                    &&& !final(self).intact()
                },
            },
    {
        self.finalized = true;
        match result {
            Ok(ts) => {
                let ghost before = self.pending@;
                let ghost tsv = ts@;
                let ghost c = trailing@;
                let nonempty = trailing.len() > 0;
                if nonempty {
                    self.pending.push_back(VadStreamItem::AudioSamples(trailing));
                    proof {
                        lemma_audio_of_push(before, VadStreamItem::AudioSamples(trailing));
                    }
                } else {
                    proof {
                        assert(c =~= Seq::<T>::empty());
                        assert(audio_of(before) + c =~= audio_of(before));
                    }
                }
                let ghost mid = self.pending@;
                self.push_transitions(ts);
                proof {
                    lemma_audio_of_concat(mid, transition_items(tsv));
                    lemma_audio_of_transitions(tsv);
                    self.in_flight@ = Seq::empty();
                    assert(audio_of(mid) =~= audio_of(before) + c);
                    assert(audio_of(self.pending@) =~= audio_of(before) + c);
                    assert(self.emitted@ + audio_of(self.pending@) + self.in_flight@ + self.buffer@ =~= self.emitted@
                        + audio_of(before) + c + self.buffer@);
                }
                match self.pop_ready() {
                    Some(item) => Some(Ok(item)),
                    None => None,
                }
            },
            Err(e) => {
                proof {
                    self.in_flight@ = Seq::empty();
                    self.intact@ = false;
                }
                Some(Err(e))
            },
        }
    }
}

/// No audio is dropped: once the stream has ended (it is finished and every item has
/// been taken out), the audio items carried every sample the source gave, in order, as
/// long as the detector never failed.
pub proof fn law_no_audio_drops<T>(c: VadChunker<T>)
    requires
        c.wf(),
        c.intact(),
        c.is_finalized(),
        c.queued().len() == 0,
    ensures
        c.emitted() == c.received(),
{
    assert(c.emitted() + audio_of(c.queued()) + c.in_flight() + c.buffered() =~= c.emitted());
}

/// Once the stream has ended it stays ended: a finished stream with nothing queued ends
/// every poll, and the poll leaves it finished with nothing queued.
pub proof fn law_ended_stream_stays_ended<T>(c: VadChunker<T>, next: VadChunker<T>, r: PollStep<T>)
    requires
        c.is_finalized(),
        c.queued().len() == 0,
        c.poll_post(next, r),
    ensures
        r is End,
        next.is_finalized(),
        next.queued().len() == 0,
{
}

/// A speech-chunk stream: running over a chunker, or refused at its start, in which case
/// it yields its one error and then ends.
pub enum SpeechChunks<T> {
    Running(VadChunker<T>),
    Refused(Option<Error>),
}

impl<T> SpeechChunks<T> {
    /// A stream over a source of `sample_rate` samples a second, in chunks of `chunk_size`;
    /// a rate other than the detector's is refused.
    pub fn start(sample_rate: u32, chunk_size: usize) -> (r: Self)
        requires
            chunk_size > 0,
        ensures
            sample_rate == SAMPLE_RATE ==> (r matches SpeechChunks::Running(c) && c.wf() && c.size() == chunk_size
                && c.buffered().len() == 0 && c.queued().len() == 0 && !c.is_finalized() && c.received().len() == 0
                && c.emitted().len() == 0 && c.in_flight().len() == 0 && c.intact()),
            sample_rate != SAMPLE_RATE ==> (r matches SpeechChunks::Refused(Some(Error::UnsupportedSampleRate(got)))
                && got == sample_rate),
    {
        match check_sample_rate(sample_rate) {
            Ok(()) => SpeechChunks::Running(VadChunker::new(chunk_size)),
            Err(e) => SpeechChunks::Refused(Some(e)),
        }
    }

    /// A stream refused at its start because the detector could not be made.
    pub fn refused(error: Error) -> (r: Self)
        ensures
            r == SpeechChunks::<T>::Refused(Some(error)),
    {
        SpeechChunks::Refused(Some(error))
    }

    /// The error a refused stream yields: its error on the first poll, then nothing, for
    /// good; a running stream yields none.
    pub fn take_refusal(&mut self) -> (r: Option<Error>)
        ensures
            match *old(self) {
                SpeechChunks::Refused(e) => r == e && *final(self) == SpeechChunks::<T>::Refused(None),
                SpeechChunks::Running(_) => r is None && *final(self) == *old(self),
            },
    {
        match self {
            SpeechChunks::Refused(e) => e.take(),
            SpeechChunks::Running(_) => None,
        }
    }
}

} // verus!
