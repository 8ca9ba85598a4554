//! Telling speakers apart: spans of speech are matched with the lines of a
//! transcript, and voices with names.

use crate::model::{Segment, Source};
#[allow(unused_imports)]
use crate::number::{decimal, write_u64};
#[allow(unused_imports)]
use crate::pattern::{begins, join, joined, starts_with, views};
use crate::toolbar::insert_sorted;
#[allow(unused_imports)]
use crate::toolbar::rising;
use vstd::prelude::*;

verus! {

// ---------------------------------------------------------------------------
// Spans and lines
// ---------------------------------------------------------------------------

/// A stretch of time in which one speaker talks.
#[derive(Debug, Clone, Copy, PartialEq, Eq, Structural)]
pub struct Span {
    pub speaker: i32,
    pub start_ms: u64,
    pub end_ms: u64,
}

/// The time that two intervals share.
pub open spec fn shared_time(a0: int, a1: int, b0: int, b1: int) -> int {
    let lo = if a0 > b0 {
        a0
    } else {
        b0
    };
    let hi = if a1 < b1 {
        a1
    } else {
        b1
    };
    if hi > lo {
        hi - lo
    } else {
        0
    }
}

/// The time that two intervals share, in milliseconds.
pub fn overlap_ms(a0: u64, a1: u64, b0: u64, b1: u64) -> (r: u64)
    ensures
        r == shared_time(a0 as int, a1 as int, b0 as int, b1 as int),
{
    let lo: u64 = if a0 > b0 {
        a0
    } else {
        b0
    };
    let hi: u64 = if a1 < b1 {
        a1
    } else {
        b1
    };
    hi.saturating_sub(lo)
}

/// The time that a line and a span share.
pub open spec fn covers(seg: Segment, span: Span) -> int {
    shared_time(
        seg.t_start_ms as int,
        seg.t_end_ms as int,
        span.start_ms as int,
        span.end_ms as int,
    )
}

/// The span that covers most of a line: the last one of those that cover the
/// most.
pub open spec fn is_best(seg: Segment, spans: Seq<Span>, i: int) -> bool {
    &&& 0 <= i < spans.len()
    &&& covers(seg, spans[i]) > 0
    &&& forall|j: int|
        #![trigger spans[j]]
        0 <= j < spans.len() ==> covers(seg, spans[j]) <= covers(seg, spans[i]) && (j > i ==> covers(
            seg,
            spans[j],
        ) < covers(seg, spans[i]))
}

/// The speaker of a line, if any span covers some of it.
pub open spec fn speaker_for(seg: Segment, spans: Seq<Span>) -> Option<i32> {
    if exists|i: int| is_best(seg, spans, i) {
        Some(spans[choose|i: int| is_best(seg, spans, i)].speaker)
    } else {
        None
    }
}

proof fn lemma_best(seg: Segment, spans: Seq<Span>, i: int)
    requires
        is_best(seg, spans, i),
    ensures
        speaker_for(seg, spans) == Some(spans[i].speaker),
{
    let k = choose|k: int| is_best(seg, spans, k);
    assert(is_best(seg, spans, k));
    assert(covers(seg, spans[k]) <= covers(seg, spans[i]));
    assert(covers(seg, spans[i]) <= covers(seg, spans[k]));
    assert(k == i);
}

/// The speaker of a line.
pub fn best_speaker(seg: &Segment, spans: &Vec<Span>) -> (r: Option<i32>)
    ensures
        r == speaker_for(*seg, spans@),
{
    let mut best: Option<(usize, u64)> = None;
    let mut i: usize = 0;
    while i < spans.len()
        invariant
            i <= spans@.len(),
            match best {
                Some((k, ov)) => {
                    &&& k < i
                    &&& ov > 0
                    &&& ov == covers(*seg, spans@[k as int])
                    &&& forall|j: int|
                        #![trigger spans@[j]]
                        0 <= j < i ==> covers(*seg, spans@[j]) <= ov && (j > k ==> covers(
                            *seg,
                            spans@[j],
                        ) < ov)
                },
                None => forall|j: int|
                    #![trigger spans@[j]]
                    0 <= j < i ==> covers(*seg, spans@[j]) <= 0,
            },
        decreases spans@.len() - i,
    {
        let ov: u64 = overlap_ms(
            seg.t_start_ms,
            seg.t_end_ms,
            spans[i].start_ms,
            spans[i].end_ms,
        );
        if ov > 0 {
            match best {
                Some((_, b)) => {
                    if ov >= b {
                        best = Some((i, ov));
                    }
                },
                None => {
                    best = Some((i, ov));
                },
            }
        }
        i += 1;
    }
    match best {
        Some((k, _)) => {
            proof {
                assert(is_best(*seg, spans@, k as int));
                lemma_best(*seg, spans@, k as int);
            }
            Some(spans[k].speaker)
        },
        None => {
            assert forall|j: int| !is_best(*seg, spans@, j) by {
                if 0 <= j < spans@.len() {
                    assert(covers(*seg, spans@[j]) <= 0);
                }
            }
            None
        },
    }
}

/// The speaker that a run gives to a line: only stored lines of the others get
/// one.
pub open spec fn labelled(seg: Segment, spans: Seq<Span>) -> Option<(i64, i32)> {
    if seg.source == Source::Others {
        match (seg.id, speaker_for(seg, spans)) {
            (Some(id), Some(n)) => Some((id, n)),
            _ => None,
        }
    } else {
        None
    }
}

/// The labels that a run gives, in the order of the lines.
pub open spec fn labels_of(segs: Seq<Segment>, spans: Seq<Span>) -> Seq<(i64, i32)>
    decreases segs.len(),
{
    if segs.len() == 0 {
        Seq::empty()
    } else {
        let p = labels_of(segs.drop_last(), spans);
        match labelled(segs.last(), spans) {
            Some(x) => p.push(x),
            None => p,
        }
    }
}

/// The labels that a run gives, in the order of the lines.
pub fn assignments(segs: &Vec<Segment>, spans: &Vec<Span>) -> (r: Vec<(i64, i32)>)
    ensures
        r@ == labels_of(segs@, spans@),
{
    let mut r: Vec<(i64, i32)> = Vec::new();
    let mut i: usize = 0;
    while i < segs.len()
        invariant
            i <= segs@.len(),
            r@ == labels_of(segs@.take(i as int), spans@),
        decreases segs@.len() - i,
    {
        assert(segs@.take(i + 1).drop_last() =~= segs@.take(i as int));
        if segs[i].source == Source::Others {
            let found = best_speaker(&segs[i], spans);
            if let Some(id) = segs[i].id {
                if let Some(n) = found {
                    r.push((id, n));
                }
            }
        }
        i += 1;
    }
    assert(segs@.take(i as int) =~= segs@);
    r
}

/// This speaker got a line.
pub open spec fn has_label(labels: Seq<(i64, i32)>, n: i32) -> bool {
    exists|i: int| 0 <= i < labels.len() && (#[trigger] labels[i]).1 == n
}

/// The speakers that got a line, ascending, each once.
pub fn labelled_speakers(labels: &Vec<(i64, i32)>) -> (r: Vec<i32>)
    ensures
        rising(r@),
        forall|n: i32| #[trigger] r@.contains(n) <==> has_label(labels@, n),
{
    let mut r: Vec<i32> = Vec::new();
    let mut i: usize = 0;
    while i < labels.len()
        invariant
            i <= labels@.len(),
            rising(r@),
            forall|n: i32| #[trigger] r@.contains(n) <==> has_label(labels@.take(i as int), n),
        decreases labels@.len() - i,
    {
        let ghost a = labels@.take(i as int);
        let ghost b = labels@.take(i + 1);
        let ghost was = r@;
        insert_sorted(&mut r, labels[i].1);
        proof {
            assert(b =~= a.push(labels@[i as int]));
            assert forall|n: i32| #[trigger] r@.contains(n) <==> has_label(b, n) by {
                assert(was.contains(n) <==> has_label(a, n));
                if has_label(a, n) {
                    let k = choose|k: int| 0 <= k < a.len() && (#[trigger] a[k]).1 == n;
                    assert(b[k] == a[k]);
                }
                if has_label(b, n) {
                    let k = choose|k: int| 0 <= k < b.len() && (#[trigger] b[k]).1 == n;
                    if k < a.len() {
                        assert(a[k] == b[k]);
                    }
                }
                assert(b[i as int] == labels@[i as int]);
            }
        }
        i += 1;
    }
    assert(labels@.take(i as int) =~= labels@);
    r
}

/// What a run does to a session.
#[derive(Debug, Clone)]
pub enum DiarizeOutcome {
    /// No speakers were heard: nothing is touched.
    NoSpeakers,
    /// No line could be matched: nothing is touched.
    NoMatch,
    /// The labels are replaced by these.
    Replace { labels: Vec<(i64, i32)>, speakers: usize },
}

/// Decides what a run does to a session. Labels are cleared only when new ones
/// are there.
pub fn diarize_outcome(segs: &Vec<Segment>, spans: &Vec<Span>) -> (r: DiarizeOutcome)
    ensures
        match r {
            DiarizeOutcome::NoSpeakers => spans@.len() == 0,
            DiarizeOutcome::NoMatch => spans@.len() > 0 && labels_of(segs@, spans@).len() == 0,
            DiarizeOutcome::Replace { labels, speakers } => {
                &&& spans@.len() > 0
                &&& labels@ == labels_of(segs@, spans@)
                &&& labels@.len() > 0
                &&& exists|v: Seq<i32>| #[trigger]
                    rising(v) && v.len() == speakers && forall|n: i32|
                        v.contains(n) <==> has_label(labels@, n)
            },
        },
{
    if spans.len() == 0 {
        return DiarizeOutcome::NoSpeakers;
    }
    let labels = assignments(segs, spans);
    if labels.len() == 0 {
        return DiarizeOutcome::NoMatch;
    }
    let v = labelled_speakers(&labels);
    let speakers: usize = v.len();
    DiarizeOutcome::Replace { labels, speakers }
}

/// The label of a line after a run.
pub open spec fn label_after(seg: Segment, o: DiarizeOutcome, spans: Seq<Span>) -> Option<i32> {
    match o {
        DiarizeOutcome::Replace { .. } => match labelled(seg, spans) {
            Some((_, n)) => Some(n),
            None => None,
        },
        _ => seg.speaker,
    }
}

/// A run that finds no speakers, or matches none with a line, leaves every label
/// as it was.
pub proof fn fruitless_runs_keep_labels(seg: Segment, o: DiarizeOutcome, spans: Seq<Span>)
    requires
        !(o is Replace),
    ensures
        label_after(seg, o, spans) == seg.speaker,
{
}

/// The user's own lines are never given to a speaker, and a line that no span
/// touches is given to none.
pub proof fn labels_are_earned(seg: Segment, spans: Seq<Span>)
    ensures
        seg.source == Source::Me ==> labelled(seg, spans) is None,
        (forall|i: int| 0 <= i < spans.len() ==> covers(seg, #[trigger] spans[i]) == 0) ==> labelled(
            seg,
            spans,
        ) is None,
{
    if forall|i: int| 0 <= i < spans.len() ==> covers(seg, #[trigger] spans[i]) == 0 {
        assert forall|i: int| !is_best(seg, spans, i) by {
            if 0 <= i < spans.len() {
                assert(covers(seg, spans[i]) == 0);
            }
        }
    }
}

proof fn lemma_best_exists(seg: Segment, spans: Seq<Span>, n: int) -> (k: int)
    requires
        0 < n <= spans.len(),
    ensures
        0 <= k < n,
        forall|j: int|
            #![trigger spans[j]]
            0 <= j < n ==> covers(seg, spans[j]) <= covers(seg, spans[k]) && (j > k ==> covers(
                seg,
                spans[j],
            ) < covers(seg, spans[k])),
    decreases n,
{
    if n == 1 {
        0
    } else {
        let p = lemma_best_exists(seg, spans, n - 1);
        if covers(seg, spans[n - 1]) >= covers(seg, spans[p]) {
            n - 1
        } else {
            p
        }
    }
}

/// A line that some span touches gets the speaker of a span that no other span
/// covers it better than.
pub proof fn lines_go_to_the_best_span(seg: Segment, spans: Seq<Span>, i: int)
    requires
        0 <= i < spans.len(),
        covers(seg, spans[i]) > 0,
    ensures
        exists|k: int| #[trigger]
            is_best(seg, spans, k) && speaker_for(seg, spans) == Some(spans[k].speaker),
{
    let k = lemma_best_exists(seg, spans, spans.len() as int);
    assert(covers(seg, spans[i]) <= covers(seg, spans[k]));
    assert(is_best(seg, spans, k));
    lemma_best(seg, spans, k);
}

// ---------------------------------------------------------------------------
// Around a run
// ---------------------------------------------------------------------------

/// The number of speakers that a run is told to find: the one of the session,
/// else the one of the settings; zero leaves it open.
pub fn pinned_speakers(session: Option<u32>, setting: u32) -> (r: Option<u32>)
    ensures
        ({
            let n = match session {
                Some(n) => n,
                None => setting,
            };
            r == (if n > 0 {
                Some(n)
            } else {
                None
            })
        }),
{
    let n: u32 = match session {
        Some(n) => n,
        None => setting,
    };
    if n > 0 {
        Some(n)
    } else {
        None
    }
}

/// Why a run does nothing.
#[derive(Debug, Clone, Copy, PartialEq, Eq, Structural)]
pub enum DiarizeBail {
    NotBuilt,
    NoSession,
    NoAudio,
    NoTrack,
    EmptyTrack,
    NoSpeakers,
    NoMatch,
    Crashed,
}

impl DiarizeBail {
    /// The notice about it.
    pub fn text(self) -> (r: &'static str)
        ensures
            r@ == (match self {
                DiarizeBail::NotBuilt =>
                    "Diarization isn't built in — rebuild with `--features diarization`."@,
                DiarizeBail::NoSession => "No such session."@,
                DiarizeBail::NoAudio =>
                    "This session didn't keep its audio, so speakers can't be identified after the fact. Turn on Settings → Speakers → \"Keep audio for re-diarization\" before recording (speakers are still identified automatically right after a recording stops)."@,
                DiarizeBail::NoTrack =>
                    "The 'Others' audio for this session is missing from disk, so speakers can't be re-identified."@,
                DiarizeBail::EmptyTrack => "No 'Others' audio to diarize."@,
                DiarizeBail::NoSpeakers =>
                    "No distinct speakers were detected — the recording may be too short, mostly silence, or a single speaker. Try lowering the clustering threshold or setting the expected speaker count in Settings → Speakers."@,
                DiarizeBail::NoMatch =>
                    "Found speech but couldn't align speakers to the transcript lines. Existing labels were left unchanged."@,
                DiarizeBail::Crashed =>
                    "Speaker identification crashed on this recording — try a different speaker model (Settings → Speakers) or set the expected speaker count, then retry."@,
            }),
    {
        match self {
            DiarizeBail::NotBuilt =>
                "Diarization isn't built in — rebuild with `--features diarization`.",
            DiarizeBail::NoSession => "No such session.",
            DiarizeBail::NoAudio =>
                "This session didn't keep its audio, so speakers can't be identified after the fact. Turn on Settings → Speakers → \"Keep audio for re-diarization\" before recording (speakers are still identified automatically right after a recording stops).",
            DiarizeBail::NoTrack =>
                "The 'Others' audio for this session is missing from disk, so speakers can't be re-identified.",
            DiarizeBail::EmptyTrack => "No 'Others' audio to diarize.",
            DiarizeBail::NoSpeakers =>
                "No distinct speakers were detected — the recording may be too short, mostly silence, or a single speaker. Try lowering the clustering threshold or setting the expected speaker count in Settings → Speakers.",
            DiarizeBail::NoMatch =>
                "Found speech but couldn't align speakers to the transcript lines. Existing labels were left unchanged.",
            DiarizeBail::Crashed =>
                "Speaker identification crashed on this recording — try a different speaker model (Settings → Speakers) or set the expected speaker count, then retry.",
        }
    }
}

/// What is known of a session before a run.
#[derive(Debug, Clone, Copy, PartialEq, Eq, Structural)]
pub struct DiarizeInput {
    /// The session is stored.
    pub session: bool,
    /// Its audio was kept.
    pub audio: bool,
    /// The file of the others is on disk.
    pub track: bool,
}

/// Whether a run can begin.
pub fn diarize_session_inner(i: DiarizeInput) -> (r: Result<(), DiarizeBail>)
    ensures
        r == (if !i.session {
            Err::<(), DiarizeBail>(DiarizeBail::NoSession)
        } else if !i.audio {
            Err::<(), DiarizeBail>(DiarizeBail::NoAudio)
        } else if !i.track {
            Err::<(), DiarizeBail>(DiarizeBail::NoTrack)
        } else {
            Ok::<(), DiarizeBail>(())
        }),
{
    if !i.session {
        Err(DiarizeBail::NoSession)
    } else if !i.audio {
        Err(DiarizeBail::NoAudio)
    } else if !i.track {
        Err(DiarizeBail::NoTrack)
    } else {
        Ok(())
    }
}

/// What is reported after a run.
#[derive(Debug, Clone, Copy, PartialEq, Eq, Structural)]
pub enum DiarizeStep {
    /// Report that the run crashed.
    NoticeCrash,
    /// Report the end, with the names of the speakers.
    ReportEnd,
}

/// What is reported after a run. Its end is reported however it went, so that
/// the busy mark goes; only a cancelled run is left to its job entry.
pub fn diarize_end(crashed: bool, cancelled: bool) -> (r: Vec<DiarizeStep>)
    ensures
        r@ == (if crashed {
            seq![DiarizeStep::NoticeCrash]
        } else {
            Seq::empty()
        }) + (if cancelled {
            Seq::empty()
        } else {
            seq![DiarizeStep::ReportEnd]
        }),
{
    let mut v: Vec<DiarizeStep> = Vec::new();
    if crashed {
        v.push(DiarizeStep::NoticeCrash);
    }
    if !cancelled {
        v.push(DiarizeStep::ReportEnd);
    }
    v
}

/// The notice after a run.
pub fn identified_text(speakers: usize) -> (r: String)
    ensures
        r@ == "Identified "@ + decimal(speakers as nat) + " speaker(s) in this conversation."@,
{
    let mut r = "Identified ".to_string();
    r.push_str(&write_u64(speakers as u64));
    r.push_str(" speaker(s) in this conversation.");
    r
}

// ---------------------------------------------------------------------------
// Voices
// ---------------------------------------------------------------------------

/// Samples of speech that a voice is learned from, at least.
pub const ENROLL_SAMPLES: usize = 48_000;

/// A voice is learned under a real name, from at least three seconds of speech.
pub fn enrolls(name: &Option<String>, speech: usize) -> (r: bool)
    ensures
        r == (name matches Some(n) && !begins(n@, "Speaker "@) && speech >= ENROLL_SAMPLES),
{
    match name {
        Some(n) => !starts_with(n, "Speaker ") && speech >= ENROLL_SAMPLES,
        None => false,
    }
}

/// The notice after voices were learned; none if there were none.
pub fn enrolled_text(n: usize) -> (r: Option<String>)
    ensures
        match r {
            Some(t) => n > 0 && t@ == "Saved voiceprints for "@ + decimal(n as nat)
                + " Discord speaker(s)."@,
            None => n == 0,
        },
{
    if n == 0 {
        return None;
    }
    let mut r = "Saved voiceprints for ".to_string();
    r.push_str(&write_u64(n as u64));
    r.push_str(" Discord speaker(s).");
    Some(r)
}

/// A recognized voice and how well it matches.
pub open spec fn recognized_part(name: Seq<char>, pct: u32) -> Seq<char> {
    name + " ("@ + decimal(pct as nat) + "% match)"@
}

/// The recognized voices.
pub open spec fn recognized_parts(found: Seq<(String, u32)>) -> Seq<Seq<char>> {
    Seq::new(found.len(), |i: int| recognized_part(found[i].0@, found[i].1))
}

/// The notice about recognized voices; none if there are none.
pub fn recognized_text(found: &Vec<(String, u32)>) -> (r: Option<String>)
    ensures
        match r {
            Some(t) => found@.len() > 0 && t@ == "Recognized "@ + joined(
                recognized_parts(found@),
                ", "@,
            ) + "."@,
            None => found@.len() == 0,
        },
{
    if found.len() == 0 {
        return None;
    }
    let mut parts: Vec<String> = Vec::new();
    let mut i: usize = 0;
    while i < found.len()
        invariant
            i <= found@.len(),
            parts@.len() == i,
            forall|k: int|
                0 <= k < i ==> (#[trigger] parts@[k])@ == recognized_part(
                    found@[k].0@,
                    found@[k].1,
                ),
        decreases found@.len() - i,
    {
        let mut p = found[i].0.clone();
        p.push_str(" (");
        p.push_str(&write_u64(found[i].1 as u64));
        p.push_str("% match)");
        parts.push(p);
        i += 1;
    }
    assert(views(parts@) =~= recognized_parts(found@));
    let mut r = "Recognized ".to_string();
    r.push_str(&join(&parts, ", "));
    r.push_str(".");
    Some(r)
}

// ---------------------------------------------------------------------------
// What the labels are
// ---------------------------------------------------------------------------

/// Two intervals share at least `n` milliseconds exactly if a stretch of that length
/// lies in both. They share no negative time, and it does not matter which is named
/// first.
pub proof fn shared_time_is_common(a0: int, a1: int, b0: int, b1: int, n: int)
    requires
        n > 0,
    ensures
        shared_time(a0, a1, b0, b1) >= n <==> exists|t: int|
            #![trigger starts_at(t)]
            starts_at(t) && a0 <= t && b0 <= t && t + n <= a1 && t + n <= b1,
        shared_time(a0, a1, b0, b1) >= 0,
        shared_time(a0, a1, b0, b1) == shared_time(b0, b1, a0, a1),
{
    let lo = if a0 > b0 {
        a0
    } else {
        b0
    };
    assert(starts_at(lo));
}

/// A place in time where a stretch begins.
pub open spec fn starts_at(t: int) -> bool {
    true
}

/// The time a span covers of a line is the time that both last together.
pub proof fn cover_is_common_time(seg: Segment, span: Span)
    ensures
        covers(seg, span) > 0 <==> seg.t_start_ms < span.end_ms && span.start_ms < seg.t_end_ms
            && seg.t_start_ms < seg.t_end_ms && span.start_ms < span.end_ms,
        covers(seg, span) <= seg.t_end_ms - seg.t_start_ms || covers(seg, span) == 0,
        seg.t_start_ms <= span.start_ms <= span.end_ms <= seg.t_end_ms ==> covers(seg, span)
            == span.end_ms - span.start_ms,
        span.start_ms <= seg.t_start_ms <= seg.t_end_ms <= span.end_ms ==> covers(seg, span)
            == seg.t_end_ms - seg.t_start_ms,
        seg.t_start_ms <= span.start_ms <= seg.t_end_ms <= span.end_ms ==> covers(seg, span)
            == seg.t_end_ms - span.start_ms,
        span.start_ms <= seg.t_start_ms <= span.end_ms <= seg.t_end_ms ==> covers(seg, span)
            == span.end_ms - seg.t_start_ms,
{
}

/// No span covers more of the line, and no later one as much.
pub open spec fn wins(seg: Segment, spans: Seq<Span>, k: int) -> bool {
    forall|j: int|
        0 <= j < spans.len() ==> {
            &&& covers(seg, #[trigger] spans[j]) <= covers(seg, spans[k])
            &&& j > k ==> covers(seg, spans[j]) < covers(seg, spans[k])
        }
}

proof fn lemma_labels_split(a: Seq<Segment>, b: Seq<Segment>, spans: Seq<Span>)
    ensures
        labels_of(a + b, spans) == labels_of(a, spans) + labels_of(b, spans),
    decreases b.len(),
{
    if b.len() == 0 {
        assert(a + b =~= a);
        assert(labels_of(a, spans) + labels_of(b, spans) =~= labels_of(a, spans));
    } else {
        assert((a + b).drop_last() =~= a + b.drop_last());
        lemma_labels_split(a, b.drop_last(), spans);
        assert(labels_of(a + b, spans) =~= labels_of(a, spans) + labels_of(b, spans));
    }
}

/// A stored line of the others that a span covers gets the speaker of the span that
/// covers it best, the last one of several, whatever label it had before.
pub proof fn covered_lines_are_labelled(segs: Seq<Segment>, spans: Seq<Span>, i: int, k: int)
    requires
        0 <= i < segs.len(),
        segs[i].source is Others,
        segs[i].id is Some,
        0 <= k < spans.len(),
        covers(segs[i], spans[k]) > 0,
        wins(segs[i], spans, k),
    ensures
        labels_of(segs, spans).contains((segs[i].id->0, spans[k].speaker)),
        labels_of(seq![segs[i]], spans) == seq![(segs[i].id->0, spans[k].speaker)],
{
    assert(is_best(segs[i], spans, k));
    lemma_best(segs[i], spans, k);
    let one = seq![segs[i]];
    assert(one.drop_last() =~= Seq::empty());
    assert(labels_of(one.drop_last(), spans) =~= Seq::<(i64, i32)>::empty());
    assert(labels_of(one, spans) =~= seq![(segs[i].id->0, spans[k].speaker)]);
    let a = segs.take(i);
    let b = segs.skip(i + 1);
    assert(segs =~= a + one + b);
    lemma_labels_split(a + one, b, spans);
    lemma_labels_split(a, one, spans);
    let r = labels_of(segs, spans);
    assert(r[labels_of(a, spans).len() as int] == (segs[i].id->0, spans[k].speaker));
}

/// The labels depend on the lines' ids, sources and times alone: neither the text nor
/// the label that a line had before makes a difference.
pub proof fn old_labels_do_not_count(a: Seq<Segment>, b: Seq<Segment>, spans: Seq<Span>)
    requires
        a.len() == b.len(),
        forall|i: int|
            #![trigger a[i]]
            0 <= i < a.len() ==> a[i].id == b[i].id && a[i].source == b[i].source && a[i].t_start_ms
                == b[i].t_start_ms && a[i].t_end_ms == b[i].t_end_ms,
    ensures
        labels_of(a, spans) == labels_of(b, spans),
    decreases a.len(),
{
    if a.len() > 0 {
        let x = a.last();
        let y = b.last();
        assert(a[a.len() - 1].id == y.id);
        assert forall|i: int| #![trigger a.drop_last()[i]]
            0 <= i < a.len() - 1 implies a.drop_last()[i].id == b.drop_last()[i].id
            && a.drop_last()[i].source == b.drop_last()[i].source && a.drop_last()[i].t_start_ms
            == b.drop_last()[i].t_start_ms && a.drop_last()[i].t_end_ms
            == b.drop_last()[i].t_end_ms by {
            assert(a[i].id == b[i].id);
        }
        old_labels_do_not_count(a.drop_last(), b.drop_last(), spans);
        assert forall|k: int| is_best(x, spans, k) == is_best(y, spans, k) by {}
        if exists|k: int| is_best(x, spans, k) {
            let k = choose|k: int| is_best(x, spans, k);
            lemma_best(x, spans, k);
            assert(is_best(y, spans, k));
            lemma_best(y, spans, k);
        } else {
            assert forall|k: int| !is_best(y, spans, k) by {
                assert(!is_best(x, spans, k));
            }
        }
    }
}

/// Every label belongs to a stored line of the others, and is the speaker of a span
/// that lasts while the line does.
pub proof fn labels_come_from_lines(segs: Seq<Segment>, spans: Seq<Span>, m: int) -> (r: (int, int))
    requires
        0 <= m < labels_of(segs, spans).len(),
    ensures
        0 <= r.0 < segs.len() && segs[r.0].source is Others && segs[r.0].id == Some(
            labels_of(segs, spans)[m].0,
        ),
        0 <= r.1 < spans.len() && covers(segs[r.0], spans[r.1]) > 0 && spans[r.1].speaker
            == labels_of(segs, spans)[m].1,
        wins(segs[r.0], spans, r.1),
    decreases segs.len(),
{
    let p = labels_of(segs.drop_last(), spans);
    if m < p.len() {
        let (i, k) = labels_come_from_lines(segs.drop_last(), spans, m);
        (i, k)
    } else {
        let s = segs.last();
        let k = choose|k: int| is_best(s, spans, k);
        assert(is_best(s, spans, k));
        (segs.len() - 1, k)
    }
}

/// The lines are labelled one by one, in order.
pub proof fn labels_follow_the_lines(a: Seq<Segment>, b: Seq<Segment>, spans: Seq<Span>)
    ensures
        labels_of(a + b, spans) == labels_of(a, spans) + labels_of(b, spans),
        labels_of(a, spans).len() <= a.len(),
    decreases a.len(),
{
    lemma_labels_split(a, b, spans);
    if a.len() > 0 {
        labels_follow_the_lines(a.drop_last(), b, spans);
    }
}

/// After a run that matched something, a line has the speaker of the span that covers
/// it best, and a line that no span covers has none.
pub proof fn replaced_labels_are_new(seg: Segment, o: DiarizeOutcome, spans: Seq<Span>, k: int)
    requires
        o is Replace,
        seg.source is Others,
        seg.id is Some,
    ensures
        0 <= k < spans.len() && covers(seg, spans[k]) > 0 && wins(seg, spans, k) ==> label_after(
            seg,
            o,
            spans,
        ) == Some(spans[k].speaker),
        (forall|j: int| 0 <= j < spans.len() ==> covers(seg, #[trigger] spans[j]) <= 0)
            ==> label_after(seg, o, spans) is None,
{
    if 0 <= k < spans.len() && covers(seg, spans[k]) > 0 && wins(seg, spans, k) {
        assert(is_best(seg, spans, k));
        lemma_best(seg, spans, k);
    }
    if forall|j: int| 0 <= j < spans.len() ==> covers(seg, #[trigger] spans[j]) <= 0 {
        assert forall|j: int| !is_best(seg, spans, j) by {
            if 0 <= j < spans.len() {
                assert(covers(seg, spans[j]) <= 0);
            }
        }
    }
}

/// Every recognized voice is named, in its place, with its match in percent.
pub proof fn recognized_voices_are_named(found: Seq<(String, u32)>, i: int)
    requires
        0 <= i < found.len(),
    ensures
        recognized_parts(found).len() == found.len(),
        recognized_parts(found)[i] == found[i].0@ + " ("@ + decimal(found[i].1 as nat) + "% match)"@,
{
}

} // verus!
