//! Transcribing a recording from its saved tracks.

use crate::model::{Features, Segment};
#[allow(unused_imports)]
use crate::number::{decimal, write_u64};
use crate::settings::Settings;
use crate::tracks::stamp_speaker;
use vstd::prelude::*;

verus! {

/// How many tracks are transcribed at once: the user's limit, but no more than
/// there are tracks, and at least one.
pub open spec fn workers_for(cap: int, tracks: int) -> int {
    let n = if cap < tracks {
        cap
    } else {
        tracks
    };
    if n < 1 {
        1
    } else {
        n
    }
}

/// How many tracks are transcribed at once.
pub fn effective_transcribe_workers(cap: u32, tracks: usize) -> (r: usize)
    ensures
        r == workers_for(cap as int, tracks as int),
{
    let n: usize = if (cap as u64) < tracks as u64 {
        cap as usize
    } else {
        tracks
    };
    if n < 1 {
        1
    } else {
        n
    }
}

/// The limit that the settings give, from one to four.
pub fn worker_cap(settings: &Settings) -> (r: u32)
    ensures
        r == (if settings.transcribe_workers < 1 {
            1
        } else if settings.transcribe_workers > 4 {
            4
        } else {
            settings.transcribe_workers as int
        }),
{
    if settings.transcribe_workers < 1 {
        1
    } else if settings.transcribe_workers > 4 {
        4
    } else {
        settings.transcribe_workers
    }
}

/// The progress of a download in percent; nothing is shown while the size is
/// unknown. More than was announced wraps round.
pub fn progress_pct(done: u64, total: Option<u64>) -> (r: Option<u8>)
    requires
        total matches Some(t) && t > 0 ==> done * 100 <= u64::MAX,
    ensures
        match r {
            Some(p) => total matches Some(t) && t > 0 && p == (done * 100 / (t as int)) % 256 && (
            done <= t ==> p == done * 100 / (t as int)),
            None => !(total matches Some(t) && t > 0),
        },
{
    match total {
        Some(t) => {
            if t > 0 {
                proof {
                    if done <= t {
                        assert(done * 100 / (t as int) <= 100) by (nonlinear_arith)
                            requires
                                done <= t,
                                t > 0,
                        ;
                    }
                }
                let pct: u64 = done * 100 / t;
                Some((pct % 256) as u8)
            } else {
                None
            }
        },
        None => None,
    }
}

/// Time between two looks at the growing transcript, in nanoseconds.
pub const PUSH_INTERVAL_NS: u64 = 700_000_000;

/// A run over the tracks of a session.
#[derive(Debug, Clone, Copy, PartialEq, Eq, Structural)]
pub struct TrackRun {
    /// The number of tracks.
    pub tracks: usize,
    /// The tracks before this one were started.
    pub next: usize,
    /// Several tracks are transcribed at once.
    pub parallel: bool,
    /// The lines so far.
    pub total: usize,
    /// When the transcript was last shown.
    pub last_push_ns: u64,
}

impl TrackRun {
    /// A run at its start.
    pub fn new(tracks: usize, cap: u32, now_ns: u64) -> (r: TrackRun)
        ensures
            r == (TrackRun {
                tracks,
                next: 0,
                parallel: workers_for(cap as int, tracks as int) > 1,
                total: 0,
                last_push_ns: now_ns,
            }),
    {
        let workers: usize = effective_transcribe_workers(cap, tracks);
        TrackRun { tracks, next: 0, parallel: workers > 1, total: 0, last_push_ns: now_ns }
    }

    /// No further track is started: all were, or the run is cancelled.
    pub open spec fn stops(self, cancelled: bool) -> bool {
        self.next >= self.tracks || cancelled && (self.parallel || self.next > 0)
    }

    /// The run after it was asked for the next track.
    pub open spec fn asked(self, cancelled: bool) -> TrackRun {
        if self.stops(cancelled) {
            self
        } else {
            TrackRun { next: (self.next + 1) as usize, ..self }
        }
    }

    /// The next track to start. No further track is started once the run is
    /// cancelled.
    pub fn next_track(&mut self, cancelled: bool) -> (r: Option<usize>)
        ensures
            r == (if old(self).stops(cancelled) {
                None
            } else {
                Some(old(self).next)
            }),
            *final(self) == old(self).asked(cancelled),
    {
        if self.next >= self.tracks || (cancelled && (self.parallel || self.next > 0)) {
            return None;
        }
        let n: usize = self.next;
        self.next = n + 1;
        Some(n)
    }

    /// A line of a track arrived. Gives the line to store, with its speaker, and
    /// whether the transcript is shown. In a run that does one track after the
    /// other, what arrives after the cancellation is dropped; what was stored
    /// stays.
    pub fn line(&mut self, cancelled: bool, seg: Segment, speaker: Option<i32>, now_ns: u64) -> (r:
        Option<(Segment, bool)>)
        requires
            old(self).parallel ==> old(self).total < usize::MAX,
        ensures
            ({
                let was = *old(self);
                let due = now_ns - was.last_push_ns >= PUSH_INTERVAL_NS;
                let kept = was.parallel || !cancelled;
                &&& r == (if !kept {
                    None
                } else {
                    Some(
                        (
                            Segment {
                                speaker: if was.parallel || speaker is Some {
                                    speaker
                                } else {
                                    seg.speaker
                                },
                                ..seg
                            },
                            due,
                        ),
                    )
                })
                &&& *final(self) == (TrackRun {
                    total: if was.parallel {
                        (was.total + 1) as usize
                    } else {
                        was.total
                    },
                    last_push_ns: if kept && due {
                        now_ns
                    } else {
                        was.last_push_ns
                    },
                    ..was
                })
            }),
    {
        if !self.parallel && cancelled {
            return None;
        }
        let due = now_ns.saturating_sub(self.last_push_ns) >= PUSH_INTERVAL_NS;
        if due {
            self.last_push_ns = now_ns;
        }
        let line = if self.parallel {
            self.total = self.total + 1;
            Segment {
                id: seg.id,
                source: seg.source,
                t_start_ms: seg.t_start_ms,
                t_end_ms: seg.t_end_ms,
                text: seg.text,
                speaker,
            }
        } else {
            stamp_speaker(seg, speaker)
        };
        Some((line, due))
    }

    /// A track is done, with so many lines. In a run that does several tracks at
    /// once the lines were counted as they arrived.
    pub fn track_done(&mut self, lines: usize)
        requires
            !old(self).parallel ==> old(self).total + lines <= usize::MAX,
        ensures
            *final(self) == (TrackRun {
                total: if old(self).parallel {
                    old(self).total
                } else {
                    (old(self).total + lines) as usize
                },
                ..*old(self)
            }),
    {
        if !self.parallel {
            self.total = self.total + lines;
        }
    }
}

/// The run after it was asked for the next track several times, with these answers
/// to "is it cancelled?".
pub open spec fn asked_all(run: TrackRun, answers: Seq<bool>) -> TrackRun
    decreases answers.len(),
{
    if answers.len() == 0 {
        run
    } else {
        asked_all(run, answers.drop_last()).asked(answers.last())
    }
}

/// The tracks that a run starts under these answers.
pub open spec fn started(run: TrackRun, answers: Seq<bool>) -> Seq<usize>
    decreases answers.len(),
{
    if answers.len() == 0 {
        Seq::empty()
    } else {
        let before = asked_all(run, answers.drop_last());
        let s = started(run, answers.drop_last());
        if before.stops(answers.last()) {
            s
        } else {
            s.push(before.next)
        }
    }
}

/// Every track is started at most once, in order, and a run that is never
/// cancelled starts them all.
pub proof fn tracks_start_in_order(run: TrackRun, answers: Seq<bool>)
    requires
        run.next == 0,
    ensures
        started(run, answers).len() == asked_all(run, answers).next,
        started(run, answers).len() <= run.tracks,
        forall|i: int|
            0 <= i < started(run, answers).len() ==> #[trigger] started(run, answers)[i] == i,
        asked_all(run, answers) == (TrackRun { next: asked_all(run, answers).next, ..run }),
        (forall|i: int| 0 <= i < answers.len() ==> !#[trigger] answers[i]) ==> started(
            run,
            answers,
        ).len() == (if answers.len() < run.tracks {
            answers.len()
        } else {
            run.tracks as nat
        }),
    decreases answers.len(),
{
    if answers.len() > 0 {
        let a = answers.drop_last();
        tracks_start_in_order(run, a);
        if forall|i: int| 0 <= i < answers.len() ==> !#[trigger] answers[i] {
            assert forall|i: int| 0 <= i < a.len() implies !#[trigger] a[i] by {
                assert(a[i] == answers[i]);
            }
            assert(!answers[answers.len() - 1]);
        }
    }
}

// ---------------------------------------------------------------------------
// Around a run
// ---------------------------------------------------------------------------

/// What is done after a run.
#[derive(Debug, Clone, Copy, PartialEq, Eq, Structural)]
pub enum TranscribeStep {
    /// Remove the lines of the session.
    ClearLines,
    /// Report a transcript without lines.
    ReportEmpty,
    /// Store the name of the model with the session.
    SetModel,
    /// Report that nothing was said.
    NoticeNothing,
    ReportTranscript,
    ReportSessions,
    /// Report the number of lines.
    NoticeDone,
    /// Write the note of the session.
    Mirror,
    /// Compute the analytics anew.
    Stats,
}

/// What is done before a run over the tracks. The lines that are there go only once
/// the model has loaded: without it the session keeps its transcript.
pub fn start_steps(loaded: bool) -> (r: Vec<TranscribeStep>)
    ensures
        r@ == (if loaded {
            seq![TranscribeStep::ClearLines, TranscribeStep::ReportEmpty, TranscribeStep::SetModel]
        } else {
            Seq::empty()
        }),
{
    let mut v: Vec<TranscribeStep> = Vec::new();
    if loaded {
        v.push(TranscribeStep::ClearLines);
        v.push(TranscribeStep::ReportEmpty);
        v.push(TranscribeStep::SetModel);
    }
    v
}

/// What is done after a run over the tracks; and whether there is a transcript.
pub fn finish_steps(total: usize, mirrored: bool) -> (r: (Vec<TranscribeStep>, bool))
    ensures
        r.1 == (total > 0),
        r.0@ == (if total == 0 {
            seq![TranscribeStep::NoticeNothing]
        } else if mirrored {
            seq![
                TranscribeStep::ReportTranscript,
                TranscribeStep::ReportSessions,
                TranscribeStep::NoticeDone,
                TranscribeStep::Mirror,
                TranscribeStep::Stats,
            ]
        } else {
            seq![
                TranscribeStep::ReportTranscript,
                TranscribeStep::ReportSessions,
                TranscribeStep::NoticeDone,
                TranscribeStep::Stats,
            ]
        }),
{
    let mut v: Vec<TranscribeStep> = Vec::new();
    if total == 0 {
        v.push(TranscribeStep::NoticeNothing);
        return (v, false);
    }
    v.push(TranscribeStep::ReportTranscript);
    v.push(TranscribeStep::ReportSessions);
    v.push(TranscribeStep::NoticeDone);
    if mirrored {
        v.push(TranscribeStep::Mirror);
    }
    v.push(TranscribeStep::Stats);
    (v, true)
}

/// The notice before a run.
pub fn transcribing_text(model: &str) -> (r: String)
    ensures
        r@ == "Transcribing with "@ + model@ + "… (first run downloads the model)"@,
{
    let mut r = "Transcribing with ".to_string();
    r.push_str(model);
    r.push_str("… (first run downloads the model)");
    r
}

/// The notice after a run.
pub fn transcribed_text(total: usize, model: &str) -> (r: String)
    ensures
        r@ == (if total == 0 {
            "No speech found in the kept audio — nothing transcribed."@
        } else {
            "Transcribed "@ + decimal(total as nat) + " segment(s) with "@ + model@ + "."@
        }),
{
    if total == 0 {
        return "No speech found in the kept audio — nothing transcribed.".to_string();
    }
    let mut r = "Transcribed ".to_string();
    r.push_str(&write_u64(total as u64));
    r.push_str(" segment(s) with ");
    r.push_str(model);
    r.push_str(".");
    r
}

/// The notice when a track cannot be transcribed.
pub fn track_failed_text(suffix: &str, why: &str) -> (r: String)
    ensures
        r@ == "transcribing "@ + suffix@ + ": "@ + why@,
{
    let mut r = "transcribing ".to_string();
    r.push_str(suffix);
    r.push_str(": ");
    r.push_str(why);
    r
}

/// What is done when the user asks for a new transcript.
#[derive(Debug, Clone, Copy, PartialEq, Eq, Structural)]
pub enum RetranscribeStep {
    /// Report that no audio was kept.
    NoticeNoAudio,
    /// Run over the tracks.
    Transcribe,
    ReportSpeakers,
    /// Tell the speakers apart again, and say so.
    Rediarize,
    Embed,
    Analyze,
    /// Report the end.
    Done,
}

/// What a request for a new transcript finds.
#[derive(Debug, Clone, Copy)]
pub struct RetranscribeFacts {
    /// The old transcript had speakers.
    pub had_speakers: bool,
    /// There was no transcript yet.
    pub first: bool,
    /// Speakers are told apart by themselves after a recording.
    pub diarize_auto: bool,
    pub cancelled: bool,
    /// The models that look for moments are on disk.
    pub models_present: bool,
}

/// The speakers are told apart again: their labels went with the old lines, or
/// the setting asks for it with the first transcript.
pub open spec fn rediarizes(ok: bool, f: RetranscribeFacts, b: Features) -> bool {
    ok && (f.had_speakers || f.first && f.diarize_auto) && !f.cancelled && b.diarization
}

/// One step if a condition holds.
pub open spec fn retry_if(c: bool, s: RetranscribeStep) -> Seq<RetranscribeStep> {
    if c {
        seq![s]
    } else {
        Seq::empty()
    }
}

/// What is done before the run. Without audio that is all.
pub fn retranscribe_first(has_audio: bool) -> (r: Vec<RetranscribeStep>)
    ensures
        r@ == (if has_audio {
            seq![RetranscribeStep::Transcribe]
        } else {
            seq![RetranscribeStep::NoticeNoAudio, RetranscribeStep::Done]
        }),
{
    let mut v: Vec<RetranscribeStep> = Vec::new();
    if has_audio {
        v.push(RetranscribeStep::Transcribe);
    } else {
        v.push(RetranscribeStep::NoticeNoAudio);
        v.push(RetranscribeStep::Done);
    }
    v
}

/// What is done after the run; `ok` says that it gave a transcript.
pub open spec fn after_retranscribing(ok: bool, f: RetranscribeFacts, b: Features) -> Seq<
    RetranscribeStep,
> {
    seq![RetranscribeStep::ReportSpeakers] + retry_if(
        rediarizes(ok, f, b),
        RetranscribeStep::Rediarize,
    ) + retry_if(ok && b.semantic, RetranscribeStep::Embed) + retry_if(
        ok && b.sentiment && f.models_present,
        RetranscribeStep::Analyze,
    ) + seq![RetranscribeStep::Done]
}

/// What is done after the run.
pub fn retranscribe_last(ok: bool, f: RetranscribeFacts, b: Features) -> (r: Vec<RetranscribeStep>)
    ensures
        r@ == after_retranscribing(ok, f, b),
{
    let mut v: Vec<RetranscribeStep> = Vec::new();
    v.push(RetranscribeStep::ReportSpeakers);
    if ok && (f.had_speakers || (f.first && f.diarize_auto)) && !f.cancelled && b.diarization {
        v.push(RetranscribeStep::Rediarize);
    }
    if ok && b.semantic {
        v.push(RetranscribeStep::Embed);
    }
    if ok && b.sentiment && f.models_present {
        v.push(RetranscribeStep::Analyze);
    }
    v.push(RetranscribeStep::Done);
    v
}

/// However a request for a new transcript goes, its end is reported last, so
/// that the busy mark goes.
pub proof fn retranscription_always_ends(ok: bool, f: RetranscribeFacts, b: Features)
    ensures
        after_retranscribing(ok, f, b).last() == RetranscribeStep::Done,
{
}

/// A run that gave nothing changes nothing more: no speakers are told apart, no
/// index is made, nothing is analyzed.
pub proof fn failed_runs_end_at_once(f: RetranscribeFacts, b: Features)
    ensures
        after_retranscribing(false, f, b) == seq![
            RetranscribeStep::ReportSpeakers,
            RetranscribeStep::Done,
        ],
{
    assert(after_retranscribing(false, f, b) =~= seq![
        RetranscribeStep::ReportSpeakers,
        RetranscribeStep::Done,
    ]);
}

// ---------------------------------------------------------------------------
// A part of a recording
// ---------------------------------------------------------------------------

/// What is done when a part of a recording is transcribed again.
#[derive(Debug, Clone, Copy, PartialEq, Eq, Structural)]
pub enum RangeStep {
    /// Report that no audio was kept.
    NoticeNoAudio,
    /// Report that there are no tracks.
    NoticeNoTracks,
    /// Transcribe the part of every track.
    Run,
    /// Report that it was cancelled.
    NoticeCancelled,
    /// Remove the old lines of the part, and store the new ones.
    Replace,
    ReportTranscript,
    /// Report how many lines went and came.
    NoticeDone,
}

/// What is done before the part is transcribed.
pub fn range_first(has_audio: bool, tracks: usize) -> (r: RangeStep)
    ensures
        r == (if !has_audio {
            RangeStep::NoticeNoAudio
        } else if tracks == 0 {
            RangeStep::NoticeNoTracks
        } else {
            RangeStep::Run
        }),
{
    if !has_audio {
        RangeStep::NoticeNoAudio
    } else if tracks == 0 {
        RangeStep::NoticeNoTracks
    } else {
        RangeStep::Run
    }
}

/// What is done after the part was transcribed.
pub open spec fn after_range(cancelled: bool) -> Seq<RangeStep> {
    if cancelled {
        seq![RangeStep::NoticeCancelled]
    } else {
        seq![RangeStep::Replace, RangeStep::ReportTranscript, RangeStep::NoticeDone]
    }
}

/// What is done after the part was transcribed. A request that was cancelled
/// leaves the transcript as it was.
pub fn range_last(cancelled: bool) -> (r: Vec<RangeStep>)
    ensures
        r@ == after_range(cancelled),
{
    if cancelled {
        vec![RangeStep::NoticeCancelled]
    } else {
        vec![RangeStep::Replace, RangeStep::ReportTranscript, RangeStep::NoticeDone]
    }
}

// ---------------------------------------------------------------------------
// What the runs do
// ---------------------------------------------------------------------------

/// As many tracks are transcribed at once as the limit and the tracks allow, and at
/// least one.
pub proof fn workers_are_used(cap: int, tracks: int)
    ensures
        1 <= cap <= tracks ==> workers_for(cap, tracks) == cap,
        1 <= tracks <= cap ==> workers_for(cap, tracks) == tracks,
        cap < 1 || tracks < 1 ==> workers_for(cap, tracks) == 1,
{
}

/// A run goes on while there are tracks and nobody cancels. One track after the other,
/// the first is started in any case; at once, a cancelled run starts none.
pub proof fn runs_stop_when_cancelled(run: TrackRun)
    ensures
        run.stops(false) <==> run.next >= run.tracks,
        run.next >= run.tracks ==> run.stops(true),
        run.parallel ==> run.stops(true),
        !run.parallel && run.next > 0 ==> run.stops(true),
        !run.parallel && run.next == 0 && run.tracks > 0 ==> !run.stops(true),
{
}

/// After a run that gave a transcript, each thing is done exactly when it is due: the
/// speakers are told apart where the session had some, or had no transcript before and
/// that is set, unless the run was cancelled; the indexes are made where they are built
/// in. The speakers are reported first, and the end last.
pub proof fn retranscriptions_do_what_is_due(ok: bool, f: RetranscribeFacts, b: Features)
    ensures
        ({
            let r = after_retranscribing(ok, f, b);
            &&& r[0] == RetranscribeStep::ReportSpeakers
            &&& r.contains(RetranscribeStep::Rediarize) <==> ok && b.diarization && !f.cancelled && (
            f.had_speakers || (f.first && f.diarize_auto))
            &&& r.contains(RetranscribeStep::Embed) <==> ok && b.semantic
            &&& r.contains(RetranscribeStep::Analyze) <==> ok && b.sentiment && f.models_present
            &&& r.last() == RetranscribeStep::Done
        }),
{
    let c1 = ok && b.diarization && !f.cancelled && (f.had_speakers || (f.first && f.diarize_auto));
    let c2 = ok && b.semantic;
    let c3 = ok && b.sentiment && f.models_present;
    let a0 = Seq::<RetranscribeStep>::empty() + retry_if(true, RetranscribeStep::ReportSpeakers);
    let a1 = a0 + retry_if(c1, RetranscribeStep::Rediarize);
    let a2 = a1 + retry_if(c2, RetranscribeStep::Embed);
    let a3 = a2 + retry_if(c3, RetranscribeStep::Analyze);
    let a4 = a3 + retry_if(true, RetranscribeStep::Done);
    assert(a4 =~= after_retranscribing(ok, f, b));
    assert forall|y: RetranscribeStep| #[trigger] a4.contains(y) <==> {
        ||| y == RetranscribeStep::ReportSpeakers
        ||| c1 && y == RetranscribeStep::Rediarize
        ||| c2 && y == RetranscribeStep::Embed
        ||| c3 && y == RetranscribeStep::Analyze
        ||| y == RetranscribeStep::Done
    } by {
        lemma_retry_has(Seq::empty(), true, RetranscribeStep::ReportSpeakers, y);
        lemma_retry_has(a0, c1, RetranscribeStep::Rediarize, y);
        lemma_retry_has(a1, c2, RetranscribeStep::Embed, y);
        lemma_retry_has(a2, c3, RetranscribeStep::Analyze, y);
        lemma_retry_has(a3, true, RetranscribeStep::Done, y);
    }
}

proof fn lemma_retry_has(
    s: Seq<RetranscribeStep>,
    c: bool,
    x: RetranscribeStep,
    y: RetranscribeStep,
)
    ensures
        (s + retry_if(c, x)).contains(y) <==> s.contains(y) || (c && x == y),
{
    let t = s + retry_if(c, x);
    if s.contains(y) {
        let k = choose|k: int| 0 <= k < s.len() && s[k] == y;
        assert(t[k] == y);
    }
    if c && x == y {
        assert(t[s.len() as int] == y);
    }
    if t.contains(y) {
        let k = choose|k: int| 0 <= k < t.len() && t[k] == y;
        if k < s.len() {
            assert(s[k] == y);
        }
    }
}

/// A part is replaced exactly if its run was not cancelled, and the new transcript is
/// reported after that.
pub proof fn cancelled_parts_are_left(cancelled: bool)
    ensures
        after_range(cancelled).contains(RangeStep::Replace) <==> !cancelled,
        !cancelled ==> after_range(cancelled)[0] == RangeStep::Replace && after_range(
            cancelled,
        )[1] == RangeStep::ReportTranscript && after_range(cancelled).contains(
            RangeStep::NoticeDone,
        ),
        cancelled ==> after_range(cancelled).contains(RangeStep::NoticeCancelled)
            && !after_range(cancelled).contains(RangeStep::ReportTranscript),
{
    let r = after_range(cancelled);
    if cancelled {
        assert(r[0] == RangeStep::NoticeCancelled);
    } else {
        assert(r[0] == RangeStep::Replace);
        assert(r[2] == RangeStep::NoticeDone);
    }
}

} // verus!
