//! What happens after a live meeting: the transcript and memo are stored, then a summary
//! is asked for, and its first sentence becomes the meeting's title.
//!
//! The front end performs each request (storage, the model) and hands back what came of
//! it; the steps below decide what is reported and what is asked for next.

use vstd::prelude::*;
use crate::text::{chars_of, string_from_chars, trimmed, trim, concat, join, joined, views, char_width,
    utf8_len, char_utf8_width, lemma_utf8_len_take, lemma_utf8_len_concat, push_all, lemma_trim_subrange};

verus! {

/// The most bytes a title keeps before it is cut.
pub const MAX_TITLE_BYTES: usize = 80;

/// The characters that end a sentence.
pub open spec fn is_terminator(c: char) -> bool {
    c == '.' || c == '!' || c == '?'
}

/// Where the first sentence of `s` ends, looking from `i`: at the first terminator, or
/// at the end.
pub open spec fn sentence_end(s: Seq<char>, i: int) -> int
    decreases s.len() - i,
{
    if i >= s.len() {
        s.len() as int
    } else if is_terminator(s[i]) {
        i
    } else {
        sentence_end(s, i + 1)
    }
}

/// The text before the first terminator.
pub open spec fn first_sentence(s: Seq<char>) -> Seq<char> {
    s.take(sentence_end(s, 0))
}

/// How many characters of `t`, counting on from `k`, fit in `n` bytes.
pub open spec fn fit_from(t: Seq<char>, k: int, n: nat) -> int
    decreases t.len() - k,
{
    if 0 <= k < t.len() && utf8_len(t.take(k + 1)) <= n {
        fit_from(t, k + 1, n)
    } else {
        k
    }
}

/// The title a summary gives: its first sentence, trimmed; past `MAX_TITLE_BYTES` bytes
/// it is cut after the last whole character that fits, and marked with an ellipsis.
pub open spec fn summary_title(summary: Seq<char>) -> Seq<char> {
    let t = trim(first_sentence(summary));
    if utf8_len(t) <= MAX_TITLE_BYTES {
        t
    } else {
        t.take(fit_from(t, 0, MAX_TITLE_BYTES as nat)) + seq!['…']
    }
}

proof fn lemma_sentence_end_bounds(s: Seq<char>, i: int)
    requires
        0 <= i <= s.len(),
    ensures
        i <= sentence_end(s, i) <= s.len(),
    decreases s.len() - i,
{
    if i < s.len() && !is_terminator(s[i]) {
        lemma_sentence_end_bounds(s, i + 1);
    }
}

proof fn lemma_utf8_len_prefix_le(t: Seq<char>, k: int)
    requires
        0 <= k <= t.len(),
    ensures
        utf8_len(t.take(k)) <= utf8_len(t),
{
    assert(t =~= t.take(k) + t.skip(k));
    lemma_utf8_len_concat(t.take(k), t.skip(k));
}

/// The title for a meeting whose summary is `summary`.
pub fn title_from_summary(summary: &str) -> (r: String)
    ensures
        r@ == summary_title(summary@),
{
    let v = chars_of(summary);
    let mut end: usize = 0;
    while end < v.len() && !(v[end] == '.' || v[end] == '!' || v[end] == '?')
        invariant
            end <= v@.len(),
            v@ == summary@,
            sentence_end(v@, 0) == sentence_end(v@, end as int),
        decreases v.len() - end,
    {
        end += 1;
    }
    let first = string_from_chars(v.as_slice(), 0, end);
    proof {
        assert(v@.subrange(0, end as int) =~= first_sentence(summary@));
    }
    let t = trimmed(first.as_str());
    let tv = chars_of(t.as_str());
    let ghost tt = tv@;
    let mut k: usize = 0;
    let mut bytes: usize = 0;
    proof {
        assert(tt.take(0) =~= Seq::<char>::empty());
    }
    while k < tv.len() && bytes + char_width(tv[k]) <= MAX_TITLE_BYTES
        invariant
            k <= tt.len(),
            tt == tv@,
            bytes == utf8_len(tt.take(k as int)),
            bytes <= MAX_TITLE_BYTES,
            fit_from(tt, 0, MAX_TITLE_BYTES as nat) == fit_from(tt, k as int, MAX_TITLE_BYTES as nat),
        decreases tv.len() - k,
    {
        proof {
            lemma_utf8_len_take(tt, k as int);
        }
        bytes = bytes + char_width(tv[k]);
        k += 1;
    }
    if k == tv.len() {
        proof {
            assert(tt.take(k as int) =~= tt);
        }
        t
    } else {
        proof {
            lemma_utf8_len_take(tt, k as int);
            lemma_utf8_len_prefix_le(tt, k + 1);
            assert(fit_from(tt, k as int, MAX_TITLE_BYTES as nat) == k);
            reveal_strlit("…");
        }
        let cut = string_from_chars(tv.as_slice(), 0, k);
        let r = concat(cut.as_str(), "…");
        proof {
            assert(tt.subrange(0, k as int) =~= tt.take(k as int));
        }
        r
    }
}

/// A word of a finished transcript.
#[derive(Debug)]
pub struct FinalizedWord {
    pub id: String,
    pub text: String,
    pub start_ms: i64,
    pub end_ms: i64,
    pub channel: i64,
}

/// The texts of the words.
pub open spec fn word_texts(words: Seq<FinalizedWord>) -> Seq<Seq<char>> {
    words.map_values(|w: FinalizedWord| w.text@)
}

/// The words of a transcript as one text, separated by spaces.
pub fn words_to_transcript_text(words: &[FinalizedWord]) -> (r: String)
    ensures
        r@ == joined(word_texts(words@), " "@),
{
    let mut texts: Vec<String> = Vec::new();
    let mut i: usize = 0;
    while i < words.len()
        invariant
            i <= words@.len(),
            texts@.len() == i,
            views(texts@) == word_texts(words@.take(i as int)),
        decreases words.len() - i,
    {
        let ghost before = texts@;
        texts.push(words[i].text.clone());
        proof {
            assert(texts@ =~= before.push(texts@[i as int]));
            assert(views(texts@) =~= views(before).push(words@[i as int].text@));
            assert(words@.take(i + 1) =~= words@.take(i as int).push(words@[i as int]));
            assert(word_texts(words@.take(i + 1)) =~= word_texts(words@.take(i as int)).push(words@[i as int].text@));
        }
        i += 1;
    }
    proof {
        assert(words@.take(words@.len() as int) =~= words@);
    }
    join(texts.as_slice(), " ")
}

/// Which word a speaker hint points at: a stored word, or one still identified by its
/// place in the live transcript.
#[derive(Debug)]
pub enum WordRef {
    FinalWordId(String),
    RuntimeIndex(usize),
}

/// A speaker hint from the live session.
#[derive(Debug)]
pub struct RuntimeSpeakerHint<D> {
    pub target: WordRef,
    pub data: D,
}

/// A speaker hint as it is stored.
#[derive(Debug)]
pub struct PersistableSpeakerHint<D> {
    pub word_id: String,
    pub data: D,
}

/// The hints that point at stored words.
pub open spec fn stored_hints<D>(hints: Seq<RuntimeSpeakerHint<D>>) -> Seq<RuntimeSpeakerHint<D>> {
    hints.filter(|h: RuntimeSpeakerHint<D>| h.target is FinalWordId)
}

/// Keeps the hints that point at stored words, in order, as stored hints.
pub fn to_persistable_hints<D: Clone>(hints: &[RuntimeSpeakerHint<D>]) -> (r: Vec<PersistableSpeakerHint<D>>)
    ensures
        r@.len() == stored_hints(hints@).len(),
        forall|i: int|
            0 <= i < r@.len() ==> {
                let h = stored_hints(hints@)[i];
                &&& h.target matches WordRef::FinalWordId(id) && (#[trigger] r@[i]).word_id@ == id@
                &&& cloned::<D>(h.data, r@[i].data)
            },
{
    let mut r: Vec<PersistableSpeakerHint<D>> = Vec::new();
    let mut i: usize = 0;
    while i < hints.len()
        invariant
            i <= hints@.len(),
            r@.len() == stored_hints(hints@.take(i as int)).len(),
            forall|j: int|
                0 <= j < r@.len() ==> {
                    let h = stored_hints(hints@.take(i as int))[j];
                    &&& h.target matches WordRef::FinalWordId(id) && (#[trigger] r@[j]).word_id@ == id@
                    &&& cloned::<D>(h.data, r@[j].data)
                },
        decreases hints.len() - i,
    {
        proof {
            assert(hints@.take(i + 1) =~= hints@.take(i as int).push(hints@[i as int]));
            hints@.take(i as int).lemma_filter_push(hints@[i as int], |h: RuntimeSpeakerHint<D>| h.target is FinalWordId);
        }
        let hint = &hints[i];
        match &hint.target {
            WordRef::FinalWordId(word_id) => {
                r.push(PersistableSpeakerHint { word_id: word_id.clone(), data: hint.data.clone() });
            },
            WordRef::RuntimeIndex(_) => {},
        }
        i += 1;
    }
    proof {
        assert(hints@.take(hints@.len() as int) =~= hints@);
    }
    r
}

/// The id of a meeting's note of `kind`.
pub open spec fn note_id(meeting_id: Seq<char>, kind: Seq<char>) -> Seq<char> {
    meeting_id + ":"@ + kind
}

/// The memo to store with a meeting, under the memo note id: the memo trimmed, unless
/// nothing is left of it.
pub fn memo_note(meeting_id: &str, memo_text: &str) -> (r: Option<(String, String)>)
    ensures
        trim(memo_text@).len() == 0 ==> r is None,
        trim(memo_text@).len() > 0 ==> (r matches Some((id, memo)) && id@ == note_id(meeting_id@, "memo"@)
            && memo@ == trim(memo_text@)),
{
    let memo = trimmed(memo_text);
    if memo.as_str().is_empty() {
        None
    } else {
        let id = concat(meeting_id, ":memo");
        proof {
            reveal_strlit(":memo");
            reveal_strlit(":");
            reveal_strlit("memo");
            assert(":memo"@ =~= ":"@ + "memo"@);
            assert(meeting_id@ + (":"@ + "memo"@) =~= meeting_id@ + ":"@ + "memo"@);
        }
        Some((id, memo))
    }
}

/// What is asked of the model to summarize a transcript.
pub open spec fn summary_prompt(transcript: Seq<char>) -> Seq<char> {
    "Summarize the following meeting transcript in a few concise paragraphs. Focus on key topics, decisions, and action items.\n\n"@
        + transcript
}

/// A step's report to the exit screen: a task started, finished or failed.
#[derive(Debug)]
pub enum ExitEvent {
    TaskStarted(usize),
    TaskDone(usize),
    TaskFailed(usize, String),
}

/// What came of the last request.
#[derive(Debug)]
pub enum PostMeetingInput {
    /// The transcript, speaker hints and memo were stored, or not.
    Saved(Result<(), String>),
    /// The stored words were read back, or not.
    WordsLoaded(Result<Vec<FinalizedWord>, String>),
    /// The model was set up, or its configuration or backend failed.
    BackendReady(Result<(), String>),
    /// The model answered with a summary, with nothing, or failed.
    Summarized(Result<Option<String>, String>),
}

/// What to do next.
#[derive(Debug)]
pub enum PostMeetingRequest {
    LoadWords,
    PrepareBackend,
    Summarize(String),
    /// Store the title and the summary note, then finish.
    Store { title: String, note_id: String, summary: String },
    Finish,
}

/// The post-meeting work, between requests.
pub struct PostMeeting {
    pub meeting_id: String,
    pub transcript: String,
}

/// The report of a failed task.
pub open spec fn is_failure(e: ExitEvent, task: usize, message: Seq<char>) -> bool {
    e matches ExitEvent::TaskFailed(t, m) && t == task && m@ == message
}

impl PostMeeting {
    /// What a result does to the work.
    pub open spec fn step_post(
        self,
        input: PostMeetingInput,
        next: Self,
        events: Seq<ExitEvent>,
        request: PostMeetingRequest,
    ) -> bool {
        &&& next.meeting_id == self.meeting_id
        &&& match input {
            PostMeetingInput::Saved(Err(e)) => {
                &&& events.len() == 2
                &&& is_failure(events[0], 0, e@)
                &&& is_failure(events[1], 1, "database unavailable"@)
                &&& request is Finish
            },
            PostMeetingInput::Saved(Ok(_)) => {
                &&& events.len() == 2
                &&& events[0] matches ExitEvent::TaskDone(t) && t == 0
                &&& events[1] matches ExitEvent::TaskStarted(t) && t == 1
                &&& request is LoadWords
            },
            PostMeetingInput::WordsLoaded(Err(e)) => {
                events.len() == 1 && is_failure(events[0], 1, e@) && request is Finish
            },
            PostMeetingInput::WordsLoaded(Ok(words)) => {
                &&& events.len() == 0
                &&& next.transcript@ == joined(word_texts(words@), " "@)
                &&& request is PrepareBackend
            },
            PostMeetingInput::BackendReady(Err(e)) => {
                events.len() == 1 && is_failure(events[0], 1, e@) && request is Finish
            },
            PostMeetingInput::BackendReady(Ok(_)) => {
                &&& events.len() == 0
                &&& request matches PostMeetingRequest::Summarize(p) && p@ == summary_prompt(self.transcript@)
            },
            PostMeetingInput::Summarized(Ok(Some(summary))) => {
                &&& events.len() == 1
                &&& events[0] matches ExitEvent::TaskDone(t) && t == 1
                &&& request matches PostMeetingRequest::Store { title, note_id: id, summary: s }
                &&& title@ == summary_title(summary@)
                &&& id@ == note_id(self.meeting_id@, "summary"@)
                &&& s@ == summary@
            },
            PostMeetingInput::Summarized(Ok(None)) => {
                events.len() == 1 && is_failure(events[0], 1, "LLM returned empty response"@) && request is Finish
            },
            PostMeetingInput::Summarized(Err(e)) => {
                events.len() == 1 && is_failure(events[0], 1, e@) && request is Finish
            },
        }
    }

    /// The work for `meeting_id`, which starts by storing the meeting: the first task is
    /// reported as started.
    pub fn start(meeting_id: String) -> (r: (Self, Vec<ExitEvent>))
        ensures
            r.0.meeting_id == meeting_id,
            r.1@.len() == 1,
            r.1@[0] matches ExitEvent::TaskStarted(t) && t == 0,
    {
        let mut events = Vec::new();
        events.push(ExitEvent::TaskStarted(0));
        (PostMeeting { meeting_id, transcript: String::new() }, events)
    }

    /// Takes the result of the last request and says what to report and do next.
    pub fn step(&mut self, input: PostMeetingInput) -> (r: (Vec<ExitEvent>, PostMeetingRequest))
        ensures
            old(self).step_post(input, *final(self), r.0@, r.1),
    {
        let mut events: Vec<ExitEvent> = Vec::new();
        match input {
            PostMeetingInput::Saved(Err(e)) => {
                events.push(ExitEvent::TaskFailed(0, e));
                events.push(ExitEvent::TaskFailed(1, "database unavailable".to_owned()));
                (events, PostMeetingRequest::Finish)
            },
            PostMeetingInput::Saved(Ok(_)) => {
                events.push(ExitEvent::TaskDone(0));
                events.push(ExitEvent::TaskStarted(1));
                (events, PostMeetingRequest::LoadWords)
            },
            PostMeetingInput::WordsLoaded(Err(e)) => {
                events.push(ExitEvent::TaskFailed(1, e));
                (events, PostMeetingRequest::Finish)
            },
            PostMeetingInput::WordsLoaded(Ok(words)) => {
                self.transcript = words_to_transcript_text(words.as_slice());
                (events, PostMeetingRequest::PrepareBackend)
            },
            PostMeetingInput::BackendReady(Err(e)) => {
                events.push(ExitEvent::TaskFailed(1, e));
                (events, PostMeetingRequest::Finish)
            },
            PostMeetingInput::BackendReady(Ok(_)) => {
                let prompt = concat(
                    "Summarize the following meeting transcript in a few concise paragraphs. Focus on key topics, decisions, and action items.\n\n",
                    self.transcript.as_str(),
                );
                (events, PostMeetingRequest::Summarize(prompt))
            },
            PostMeetingInput::Summarized(Ok(Some(summary))) => {
                events.push(ExitEvent::TaskDone(1));
                let title = title_from_summary(summary.as_str());
                let id = concat(self.meeting_id.as_str(), ":summary");
                proof {
                    reveal_strlit(":summary");
                    reveal_strlit(":");
                    reveal_strlit("summary");
                    assert(":summary"@ =~= ":"@ + "summary"@);
                    assert(self.meeting_id@ + (":"@ + "summary"@) =~= self.meeting_id@ + ":"@ + "summary"@);
                }
                (events, PostMeetingRequest::Store { title, note_id: id, summary })
            },
            PostMeetingInput::Summarized(Ok(None)) => {
                events.push(ExitEvent::TaskFailed(1, "LLM returned empty response".to_owned()));
                (events, PostMeetingRequest::Finish)
            },
            PostMeetingInput::Summarized(Err(e)) => {
                events.push(ExitEvent::TaskFailed(1, e));
                (events, PostMeetingRequest::Finish)
            },
        }
    }
}

proof fn lemma_fit_from_fits(t: Seq<char>, k: int, n: nat)
    requires
        0 <= k <= t.len(),
        utf8_len(t.take(k)) <= n,
    ensures
        k <= fit_from(t, k, n) <= t.len(),
        utf8_len(t.take(fit_from(t, k, n))) <= n,
    decreases t.len() - k,
{
    if k < t.len() && utf8_len(t.take(k + 1)) <= n {
        lemma_fit_from_fits(t, k + 1, n);
    }
}

/// A title never runs past `MAX_TITLE_BYTES` bytes, but for the ellipsis that marks a cut.
pub proof fn law_title_fits(summary: Seq<char>)
    ensures
        utf8_len(summary_title(summary)) <= MAX_TITLE_BYTES + 3,
{
    let t = trim(first_sentence(summary));
    if utf8_len(t) > MAX_TITLE_BYTES {
        assert(t.take(0) =~= Seq::<char>::empty());
        lemma_fit_from_fits(t, 0, MAX_TITLE_BYTES as nat);
        let k = fit_from(t, 0, MAX_TITLE_BYTES as nat);
        lemma_utf8_len_concat(t.take(k), seq!['…']);
        assert(seq!['…'].drop_first() =~= Seq::<char>::empty());
        assert(utf8_len(seq!['…']) == char_utf8_width('…'));
    }
}

proof fn lemma_no_terminator_before_end(s: Seq<char>, i: int, k: int)
    requires
        0 <= i <= k < sentence_end(s, i),
        i <= s.len(),
    ensures
        k < s.len(),
        !is_terminator(s[k]),
    decreases s.len() - i,
{
    if i < s.len() && !is_terminator(s[i]) && i < k {
        lemma_no_terminator_before_end(s, i + 1, k);
    }
}

proof fn lemma_sentence_end_at(s: Seq<char>, i: int, j: int)
    requires
        0 <= i <= j <= s.len(),
        forall|k: int| i <= k < j ==> !is_terminator(#[trigger] s[k]),
        j < s.len() ==> is_terminator(s[j]),
    ensures
        sentence_end(s, i) == j,
    decreases j - i,
{
    if i < j {
        lemma_sentence_end_at(s, i + 1, j);
    }
}

/// A title holds no sentence terminator: whatever the summary, the title has no `.`,
/// `!` or `?`, since the summary is cut at the first of them.
pub proof fn law_title_has_no_terminator(summary: Seq<char>)
    ensures
        forall|i: int|
            0 <= i < summary_title(summary).len() ==> #[trigger] summary_title(summary)[i] != '.'
                && summary_title(summary)[i] != '!' && summary_title(summary)[i] != '?',
{
    let e = sentence_end(summary, 0);
    lemma_sentence_end_bounds(summary, 0);
    let fs = first_sentence(summary);
    assert forall|k: int| 0 <= k < fs.len() implies !is_terminator(#[trigger] fs[k]) by {
        lemma_no_terminator_before_end(summary, 0, k);
    }
    let t = trim(fs);
    lemma_trim_subrange(fs);
    let a = crate::text::leading_ws(fs) as int;
    assert forall|k: int| 0 <= k < t.len() implies !is_terminator(#[trigger] t[k]) by {
        assert(t[k] == fs[a + k]);
    }
    if utf8_len(t) > MAX_TITLE_BYTES {
        assert(t.take(0) =~= Seq::<char>::empty());
        lemma_fit_from_fits(t, 0, MAX_TITLE_BYTES as nat);
        let n = fit_from(t, 0, MAX_TITLE_BYTES as nat);
        let r = t.take(n) + seq!['…'];
        assert forall|k: int| 0 <= k < r.len() implies r[k] != '.' && r[k] != '!' && r[k] != '?' by {
            if k < n {
                assert(r[k] == t[k]);
                assert(!is_terminator(t[k]));
            } else {
                assert(r[k] == '…');
            }
        }
    } else {
        assert forall|k: int| 0 <= k < t.len() implies t[k] != '.' && t[k] != '!' && t[k] != '?' by {
            assert(!is_terminator(t[k]));
        }
    }
}

/// A title that fits in eighty bytes is the summary's text before its first `.`, `!` or
/// `?` (or all of it when there is none), with the surrounding whitespace trimmed.
pub proof fn law_title_is_first_sentence(summary: Seq<char>, j: int)
    requires
        0 <= j <= summary.len(),
        forall|i: int| 0 <= i < j ==> #[trigger] summary[i] != '.' && summary[i] != '!' && summary[i] != '?',
        j < summary.len() ==> (summary[j] == '.' || summary[j] == '!' || summary[j] == '?'),
        utf8_len(trim(summary.take(j))) <= 80,
    ensures
        summary_title(summary) == trim(summary.take(j)),
{
    assert forall|k: int| 0 <= k < j implies !is_terminator(#[trigger] summary[k]) by {
        assert(summary[k] != '.' && summary[k] != '!' && summary[k] != '?');
    }
    lemma_sentence_end_at(summary, 0, j);
}

proof fn lemma_fit_from_stops_at(t: Seq<char>, i: int, k: int, n: nat)
    requires
        0 <= i <= k < t.len(),
        utf8_len(t.take(k)) <= n,
        utf8_len(t.take(k + 1)) > n,
    ensures
        fit_from(t, i, n) == k,
    decreases k - i,
{
    if i < k {
        let p = t.take(k);
        lemma_utf8_len_prefix_le(p, i + 1);
        assert(p.take(i + 1) =~= t.take(i + 1));
        lemma_fit_from_stops_at(t, i + 1, k, n);
    }
}

/// A first sentence longer than `MAX_TITLE_BYTES` (eighty) bytes is cut after the most
/// whole characters that fit in eighty bytes, and an ellipsis is added.
pub proof fn law_long_title_is_cut_at_the_limit(summary: Seq<char>, j: int, k: int)
    requires
        0 <= j <= summary.len(),
        forall|i: int| 0 <= i < j ==> #[trigger] summary[i] != '.' && summary[i] != '!' && summary[i] != '?',
        j < summary.len() ==> (summary[j] == '.' || summary[j] == '!' || summary[j] == '?'),
        utf8_len(trim(summary.take(j))) > 80,
        0 <= k < trim(summary.take(j)).len(),
        utf8_len(trim(summary.take(j)).take(k)) <= 80,
        utf8_len(trim(summary.take(j)).take(k + 1)) > 80,
    ensures
        summary_title(summary) == trim(summary.take(j)).take(k) + seq!['…'],
{
    assert forall|i: int| 0 <= i < j implies !is_terminator(#[trigger] summary[i]) by {
        assert(summary[i] != '.' && summary[i] != '!' && summary[i] != '?');
    }
    lemma_sentence_end_at(summary, 0, j);
    lemma_fit_from_stops_at(trim(summary.take(j)), 0, k, MAX_TITLE_BYTES as nat);
}

} // verus!
