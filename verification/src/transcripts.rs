//! Text drawn from transcription results and stored events.

use vstd::prelude::*;
use crate::text::{trimmed, trim, join, joined, views, chars_of, string_from_chars, push_char, utf8_len, char_width,
    lemma_utf8_len_take};
use crate::colors::{has_boundary, byte_index, lemma_prefix_bytes_increase};

verus! {

/// One alternative reading of a channel.
#[derive(Debug)]
pub struct BatchAlternative {
    pub transcript: String,
}

/// A channel of a transcription result, with its alternative readings, best first.
#[derive(Debug)]
pub struct BatchChannel {
    pub alternatives: Vec<BatchAlternative>,
}

/// The trimmed best readings of the channels that have one, leaving out empty ones.
pub open spec fn channel_texts(channels: Seq<BatchChannel>) -> Seq<Seq<char>>
    decreases channels.len(),
{
    if channels.len() == 0 {
        Seq::empty()
    } else {
        let earlier = channel_texts(channels.drop_last());
        let c = channels.last();
        if c.alternatives@.len() > 0 && trim(c.alternatives@[0].transcript@).len() > 0 {
            earlier.push(trim(c.alternatives@[0].transcript@))
        } else {
            earlier
        }
    }
}

/// The plain transcript of a result: the best reading of each channel, trimmed, one per
/// line, leaving out channels with none.
pub fn extract_transcript(channels: &[BatchChannel]) -> (r: String)
    ensures
        r@ == joined(channel_texts(channels@), "\n"@),
{
    let mut texts: Vec<String> = Vec::new();
    let mut i: usize = 0;
    while i < channels.len()
        invariant
            i <= channels@.len(),
            views(texts@) == channel_texts(channels@.take(i as int)),
        decreases channels.len() - i,
    {
        proof {
            assert(channels@.take(i + 1).drop_last() =~= channels@.take(i as int));
            assert(channels@.take(i + 1).last() == channels@[i as int]);
        }
        let c = &channels[i];
        if c.alternatives.len() > 0 {
            let t = trimmed(c.alternatives[0].transcript.as_str());
            if !t.as_str().is_empty() {
                let ghost before = texts@;
                texts.push(t);
                proof {
                    assert(views(texts@) =~= views(before).push(texts@.last()@));
                }
            }
        }
        i += 1;
    }
    proof {
        assert(channels@.take(channels@.len() as int) =~= channels@);
    }
    join(texts.as_slice(), "\n")
}

/// How an event's start is shown: its first sixteen bytes (date, hours and minutes),
/// with the `T` between date and time made a space.
pub open spec fn date_label(started_at: Seq<char>) -> Seq<char> {
    let head = if utf8_len(started_at) >= 16 {
        started_at.take(byte_index(started_at, 16))
    } else {
        started_at
    };
    head.map_values(|c: char| if c == 'T' { ' ' } else { c })
}

/// Shows an event's start time.
pub fn event_date_label(started_at: &str) -> (r: String)
    requires
        utf8_len(started_at@) >= 16 ==> has_boundary(started_at@, 16),
    ensures
        r@ == date_label(started_at@),
{
    let v = chars_of(started_at);
    let mut total: usize = 0;
    let mut end: usize = 0;
    proof {
        assert(v@.take(0) =~= Seq::<char>::empty());
    }
    while end < v.len() && total < 16
        invariant
            end <= v@.len(),
            v@ == started_at@,
            total == utf8_len(v@.take(end as int)),
            total < 20,
            end > 0 ==> utf8_len(v@.take(end - 1)) < 16,
        decreases v.len() - end,
    {
        proof {
            lemma_utf8_len_take(v@, end as int);
        }
        total = total + char_width(v[end]);
        end += 1;
    }
    let ghost head = if utf8_len(started_at@) >= 16 {
        started_at@.take(byte_index(started_at@, 16))
    } else {
        started_at@
    };
    proof {
        if total < 16 {
            assert(v@.take(end as int) =~= v@);
        } else {
            if end < v@.len() {
                assert(v@ =~= v@.take(end as int) + v@.skip(end as int));
                crate::text::lemma_utf8_len_concat(v@.take(end as int), v@.skip(end as int));
            } else {
                assert(v@.take(end as int) =~= v@);
            }
            let k = choose|k: int| 0 <= k <= v@.len() && #[trigger] utf8_len(v@.take(k)) == 16;
            if k < end - 1 {
                lemma_prefix_bytes_increase(v@, k, end - 1);
            }
            if k > end {
                lemma_prefix_bytes_increase(v@, end as int, k);
            }
            if k == end - 1 {
                assert(utf8_len(v@.take(end - 1)) < 16);
            }
            assert(k == end);
        }
        assert(head =~= v@.take(end as int));
    }
    let mut r = String::new();
    let mut i: usize = 0;
    while i < end
        invariant
            i <= end <= v@.len(),
            head == v@.take(end as int),
            r@ == head.take(i as int).map_values(|c: char| if c == 'T' { ' ' } else { c }),
        decreases end - i,
    {
        let c = v[i];
        push_char(&mut r, if c == 'T' { ' ' } else { c });
        proof {
            assert(head.take(i + 1) =~= head.take(i as int).push(c));
            assert(head.take(i + 1).map_values(|c: char| if c == 'T' { ' ' } else { c }) =~= head.take(
                i as int,
            ).map_values(|c: char| if c == 'T' { ' ' } else { c }).push(if c == 'T' { ' ' } else { c }));
        }
        i += 1;
    }
    proof {
        assert(head.take(end as int) =~= head);
    }
    r
}

/// One reading of a streamed segment: its text and its words.
#[derive(Debug)]
pub struct SegmentAlternative<W> {
    pub transcript: String,
    pub words: Vec<W>,
}

/// A streamed transcript segment, with its readings, best first.
#[derive(Debug)]
pub struct StreamSegment<W> {
    pub alternatives: Vec<SegmentAlternative<W>>,
}

/// The segments that count: the trimmed text and the words of each segment's best
/// reading, leaving out segments with no reading or a blank one.
pub open spec fn kept_segments<W>(segments: Seq<StreamSegment<W>>) -> Seq<(Seq<char>, Seq<W>)>
    decreases segments.len(),
{
    if segments.len() == 0 {
        Seq::empty()
    } else {
        let earlier = kept_segments(segments.drop_last());
        let s = segments.last();
        if s.alternatives@.len() > 0 && trim(s.alternatives@[0].transcript@).len() > 0 {
            earlier.push((trim(s.alternatives@[0].transcript@), s.alternatives@[0].words@))
        } else {
            earlier
        }
    }
}

/// The texts of kept segments.
pub open spec fn kept_texts<W>(kept: Seq<(Seq<char>, Seq<W>)>) -> Seq<Seq<char>> {
    kept.map_values(|k: (Seq<char>, Seq<W>)| k.0)
}

/// The words of kept segments, in order.
pub open spec fn kept_words<W>(kept: Seq<(Seq<char>, Seq<W>)>) -> Seq<W>
    decreases kept.len(),
{
    if kept.len() == 0 {
        Seq::empty()
    } else {
        kept_words(kept.drop_last()) + kept.last().1
    }
}

/// A transcript assembled from streamed segments.
#[derive(Debug)]
pub struct AssembledTranscript<W> {
    /// The kept segments' texts, joined by a space.
    pub transcript: String,
    /// The kept segments' words, in order.
    pub words: Vec<W>,
    /// How many segments were kept.
    pub count: usize,
}

/// Assembles streamed segments into one transcript: the trimmed, non-blank best readings
/// joined by a space, with their words in order; nothing when no segment has text.
pub fn assemble_segments<W>(segments: Vec<StreamSegment<W>>) -> (r: Option<AssembledTranscript<W>>)
    ensures
        kept_segments(segments@).len() == 0 ==> r is None,
        kept_segments(segments@).len() > 0 ==> (r matches Some(a) && a.transcript@ == joined(
            kept_texts(kept_segments(segments@)),
            " "@,
        ) && a.words@ == kept_words(kept_segments(segments@)) && a.count == kept_segments(segments@).len()),
{
    let ghost all = segments@;
    let total = segments.len();
    let mut rest = segments;
    let mut texts: Vec<String> = Vec::new();
    let mut words: Vec<W> = Vec::new();
    let mut count: usize = 0;
    let mut i: usize = 0;
    proof {
        assert(rest@ =~= all.skip(0));
        assert(all.take(0) =~= Seq::<StreamSegment<W>>::empty());
        assert(views(texts@) =~= kept_texts(kept_segments(all.take(0))));
    }
    while rest.len() > 0
        invariant
            i <= all.len() == total,
            rest@ == all.skip(i as int),
            views(texts@) == kept_texts(kept_segments(all.take(i as int))),
            words@ == kept_words(kept_segments(all.take(i as int))),
            count == kept_segments(all.take(i as int)).len(),
            count <= i,
        decreases rest.len(),
    {
        let mut seg = rest.remove(0);
        proof {
            assert(seg == all[i as int]);
            assert(rest@ =~= all.skip(i + 1));
            assert(all.take(i + 1).drop_last() =~= all.take(i as int));
            assert(all.take(i + 1).last() == all[i as int]);
        }
        let ghost k0 = kept_segments(all.take(i as int));
        if seg.alternatives.len() > 0 {
            let mut alt = seg.alternatives.remove(0);
            let t = trimmed(alt.transcript.as_str());
            if !t.as_str().is_empty() {
                let ghost aw = alt.words@;
                let ghost tv = t@;
                let ghost before_t = texts@;
                texts.push(t);
                words.append(&mut alt.words);
                count += 1;
                proof {
                    let k1 = k0.push((tv, aw));
                    assert(kept_segments(all.take(i + 1)) == k1);
                    assert(views(texts@) =~= views(before_t).push(tv));
                    assert(kept_texts(k1) =~= kept_texts(k0).push(tv));
                    assert(k1.drop_last() =~= k0);
                }
            } else {
                proof {
                    assert(kept_segments(all.take(i + 1)) == k0);
                }
            }
        } else {
            proof {
                assert(kept_segments(all.take(i + 1)) == k0);
            }
        }
        i += 1;
    }
    proof {
        assert(all.take(i as int) =~= all);
    }
    if count == 0 {
        None
    } else {
        let transcript = join(texts.as_slice(), " ");
        Some(AssembledTranscript { transcript, words, count })
    }
}

/// Whether speakers are told apart when printing segments: there is more than one
/// channel, or the segments do not all come from the first segment's speaker.
pub open spec fn speakers_shown(num_channels: nat, speakers: Seq<usize>) -> bool {
    num_channels > 1 || exists|i: int| 0 <= i < speakers.len() && #[trigger] speakers[i] != speakers[0]
}

/// Decides whether speakers are told apart.
pub fn show_speaker(num_channels: usize, speakers: &[usize]) -> (r: bool)
    ensures
        r == speakers_shown(num_channels as nat, speakers@),
{
    if num_channels > 1 {
        return true;
    }
    let mut i: usize = 0;
    while i < speakers.len()
        invariant
            i <= speakers@.len(),
            forall|j: int| 0 <= j < i ==> #[trigger] speakers@[j] == speakers@[0],
        decreases speakers.len() - i,
    {
        if speakers[i] != speakers[0] {
            return true;
        }
        i += 1;
    }
    false
}

/// The indentation of a wrapped segment's continuation lines: the width of its label.
pub open spec fn continuation_indent() -> Seq<char> {
    Seq::new(22, |i: int| ' ')
}

/// Continuation lines, each on a line of its own after the indentation.
pub open spec fn continuation_lines(rest: Seq<Seq<char>>) -> Seq<char>
    decreases rest.len(),
{
    if rest.len() == 0 {
        Seq::empty()
    } else {
        continuation_lines(rest.drop_last()) + "\n"@ + continuation_indent() + rest.last()
    }
}

/// A printed segment whose text was wrapped into `lines`: the label before the first line,
/// and the other lines below it, indented to the label's width.
pub open spec fn wrapped_layout(label: Seq<char>, lines: Seq<Seq<char>>) -> Seq<char> {
    if lines.len() == 0 {
        label
    } else {
        label + lines[0] + continuation_lines(lines.drop_first())
    }
}

/// Lays out a wrapped segment.
pub fn lay_out_wrapped(label: &str, lines: &[String]) -> (r: String)
    ensures
        r@ == wrapped_layout(label@, views(lines@)),
{
    let mut r = String::new();
    crate::text::push_all(&mut r, label);
    if lines.len() == 0 {
        proof {
            assert(r@ =~= label@);
        }
        return r;
    }
    crate::text::push_all(&mut r, lines[0].as_str());
    let ghost rest = views(lines@).drop_first();
    let mut indent = String::new();
    let mut k: usize = 0;
    while k < 22
        invariant
            k <= 22,
            indent@ =~= Seq::new(k as nat, |i: int| ' '),
        decreases 22 - k,
    {
        push_char(&mut indent, ' ');
        k += 1;
    }
    proof {
        assert(indent@ =~= continuation_indent());
        assert(rest.take(0) =~= Seq::<Seq<char>>::empty());
        assert(r@ =~= label@ + views(lines@)[0] + continuation_lines(rest.take(0)));
    }
    let mut i: usize = 1;
    while i < lines.len()
        invariant
            1 <= i <= lines@.len(),
            rest == views(lines@).drop_first(),
            indent@ == continuation_indent(),
            r@ == label@ + views(lines@)[0] + continuation_lines(rest.take(i - 1)),
        decreases lines.len() - i,
    {
        let ghost before = r@;
        push_char(&mut r, '\n');
        crate::text::push_all(&mut r, indent.as_str());
        crate::text::push_all(&mut r, lines[i].as_str());
        proof {
            reveal_strlit("\n");
            assert(rest.take(i as int).drop_last() =~= rest.take(i - 1));
            assert(rest.take(i as int).last() == lines@[i as int]@);
            assert(r@ =~= before + "\n"@ + continuation_indent() + lines@[i as int]@);
        }
        i += 1;
    }
    proof {
        assert(rest.take(i - 1) =~= rest);
    }
    r
}

} // verus!
