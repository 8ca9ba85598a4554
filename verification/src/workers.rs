//! The index workers: semantic search and sentiment moments. They fill in what
//! is missing for past sessions, one session at a time, and can be cancelled
//! between sessions.

use crate::job_keys::JobKey;
use crate::labels::speaker_key;
#[allow(unused_imports)]
use crate::labels::keyed_speaker;
use crate::model::{AnalyzeCmd, EmbedCmd, Segment, Source};
use crate::notices::Failure;
#[allow(unused_imports)]
use crate::number::{decimal, write_u64};
use crate::text::same;
use vstd::prelude::*;

verus! {

// ---------------------------------------------------------------------------
// What a command asks for
// ---------------------------------------------------------------------------

/// What the semantic worker does.
#[derive(Debug, Clone)]
pub enum EmbedTask {
    /// Nothing: the model is not there, or the job runs already.
    Skip,
    /// Index one session.
    Index(String),
    /// Register the job and index every session that is missing; fetch the
    /// model first if `fetch` is set.
    Backfill { fetch: bool },
    /// Report no results: there is no index yet.
    NoResults,
    /// Rank the index against this text.
    Rank(String),
}

/// What a command asks of the semantic worker. `present` says that the model is
/// on disk, `running` that a backfill is registered.
pub fn embed_task(cmd: EmbedCmd, present: bool, running: bool) -> (r: EmbedTask)
    ensures
        r == (match cmd {
            EmbedCmd::EmbedSession(id) => if present {
                EmbedTask::Index(id)
            } else {
                EmbedTask::Skip
            },
            EmbedCmd::BackfillAll => if running {
                EmbedTask::Skip
            } else {
                EmbedTask::Backfill { fetch: !present }
            },
            EmbedCmd::Query(text) => if present {
                EmbedTask::Rank(text)
            } else {
                EmbedTask::NoResults
            },
        }),
{
    match cmd {
        EmbedCmd::EmbedSession(id) => if present {
            EmbedTask::Index(id)
        } else {
            EmbedTask::Skip
        },
        EmbedCmd::BackfillAll => if running {
            EmbedTask::Skip
        } else {
            EmbedTask::Backfill { fetch: !present }
        },
        EmbedCmd::Query(text) => if present {
            EmbedTask::Rank(text)
        } else {
            EmbedTask::NoResults
        },
    }
}

/// What the sentiment worker does.
#[derive(Debug, Clone)]
pub enum AnalyzeTask {
    Skip,
    /// Register the job and analyse one session.
    Analyze(String),
    /// Register the job and analyse every session that is missing; fetch the
    /// models first if `fetch` is set.
    Backfill { fetch: bool },
}

/// The job of a sentiment command.
pub fn analyze_key(cmd: &AnalyzeCmd) -> (r: JobKey)
    ensures
        r == (match *cmd {
            AnalyzeCmd::AnalyzeSession(id) => JobKey::SentimentSession(id),
            AnalyzeCmd::BackfillAll => JobKey::Sentiment,
        }),
{
    match cmd {
        AnalyzeCmd::AnalyzeSession(id) => JobKey::SentimentSession(id.clone()),
        AnalyzeCmd::BackfillAll => JobKey::Sentiment,
    }
}

/// What a command asks of the sentiment worker. `emotion` and `events` say which
/// models are on disk, `running` that the command's job is registered.
pub fn analyze_task(cmd: AnalyzeCmd, emotion: bool, events: bool, running: bool) -> (r: AnalyzeTask)
    ensures
        r == (match cmd {
            AnalyzeCmd::AnalyzeSession(id) => if emotion && !running {
                AnalyzeTask::Analyze(id)
            } else {
                AnalyzeTask::Skip
            },
            AnalyzeCmd::BackfillAll => if running {
                AnalyzeTask::Skip
            } else {
                AnalyzeTask::Backfill { fetch: !emotion || !events }
            },
        }),
{
    match cmd {
        AnalyzeCmd::AnalyzeSession(id) => if emotion && !running {
            AnalyzeTask::Analyze(id)
        } else {
            AnalyzeTask::Skip
        },
        AnalyzeCmd::BackfillAll => if running {
            AnalyzeTask::Skip
        } else {
            AnalyzeTask::Backfill { fetch: !emotion || !events }
        },
    }
}

// ---------------------------------------------------------------------------
// Filling in what is missing
// ---------------------------------------------------------------------------

/// The two indexes.
#[derive(Debug, Clone, Copy, PartialEq, Eq, Structural)]
pub enum Index {
    Semantic,
    Moments,
}

/// What a backfill does after its job was registered, in order.
#[derive(Debug, Clone, Copy, PartialEq, Eq, Structural)]
pub enum BackfillStep {
    /// Report that the model is fetched.
    NoticeFetching,
    /// Report that the model is here.
    NoticeFetched,
    /// Report that nothing is missing.
    NoticeUpToDate,
    /// Report how many sessions are missing.
    NoticeBegin,
    /// Work through the missing sessions.
    Run,
    /// Report how many sessions went well.
    NoticeEnd,
    /// Take the job off the board.
    EndJob,
}

/// What a backfill finds outside.
#[derive(Debug, Clone, Copy, PartialEq, Eq, Structural)]
pub struct BackfillFacts {
    /// The model has to be fetched first.
    pub fetch: bool,
    /// Fetching it went well.
    pub fetched: bool,
    /// The model loads.
    pub loaded: bool,
    /// The database opens.
    pub opened: bool,
    /// How many sessions are missing.
    pub missing: usize,
}

/// The steps of a backfill. Only the semantic index says that its model is here.
pub open spec fn backfill_of(index: Index, f: BackfillFacts) -> Seq<BackfillStep> {
    let head = if !f.fetch {
        Seq::empty()
    } else if f.fetched && index == Index::Semantic {
        seq![BackfillStep::NoticeFetching, BackfillStep::NoticeFetched]
    } else {
        seq![BackfillStep::NoticeFetching]
    };
    let body = if (f.fetch && !f.fetched) || !f.loaded || !f.opened {
        Seq::empty()
    } else if f.missing == 0 {
        seq![BackfillStep::NoticeUpToDate]
    } else {
        seq![BackfillStep::NoticeBegin, BackfillStep::Run, BackfillStep::NoticeEnd]
    };
    head + body + seq![BackfillStep::EndJob]
}

/// The steps of a backfill.
pub fn backfill_steps(index: Index, f: BackfillFacts) -> (r: Vec<BackfillStep>)
    ensures
        r@ == backfill_of(index, f),
{
    let mut v: Vec<BackfillStep> = Vec::new();
    if f.fetch {
        v.push(BackfillStep::NoticeFetching);
        if f.fetched && index == Index::Semantic {
            v.push(BackfillStep::NoticeFetched);
        }
    }
    if !((f.fetch && !f.fetched) || !f.loaded || !f.opened) {
        if f.missing == 0 {
            v.push(BackfillStep::NoticeUpToDate);
        } else {
            v.push(BackfillStep::NoticeBegin);
            v.push(BackfillStep::Run);
            v.push(BackfillStep::NoticeEnd);
        }
    }
    v.push(BackfillStep::EndJob);
    v
}

/// However a backfill goes, its job ends, and it ends last.
pub proof fn backfills_always_end(index: Index, f: BackfillFacts)
    ensures
        backfill_of(index, f).last() == BackfillStep::EndJob,
        forall|i: int|
            0 <= i < backfill_of(index, f).len() - 1 ==> #[trigger] backfill_of(index, f)[i]
                != BackfillStep::EndJob,
{
}

/// The notice of a step.
pub fn backfill_text(index: Index, step: BackfillStep, done: usize, missing: usize) -> (r: Option<
    String,
>)
    ensures
        match step {
            BackfillStep::NoticeFetching => r is Some && r->0@ == (match index {
                Index::Semantic => "Downloading semantic search model (first run)…"@,
                Index::Moments =>
                    "Downloading sentiment models (first run; on-device, audio-prosody)…"@,
            }),
            BackfillStep::NoticeFetched => r is Some && r->0@ == "Semantic model downloaded."@,
            BackfillStep::NoticeUpToDate => r is Some && r->0@ == (match index {
                Index::Semantic => "Semantic index is already up to date."@,
                Index::Moments => "Meeting moments are up to date."@,
            }),
            BackfillStep::NoticeBegin => r is Some && r->0@ == (match index {
                Index::Semantic => "Building semantic index for "@,
                Index::Moments => "Analyzing moments for "@,
            }) + decimal(missing as nat) + " session(s)…"@,
            BackfillStep::NoticeEnd => r is Some && r->0@ == (match index {
                Index::Semantic => "Semantic index built"@,
                Index::Moments => "Meeting moments analyzed"@,
            }) + " ("@ + decimal(done as nat) + "/"@ + decimal(missing as nat) + " sessions)."@,
            BackfillStep::Run => r is None,
            BackfillStep::EndJob => r is None,
        },
{
    match step {
        BackfillStep::NoticeFetching => match index {
            Index::Semantic => Some("Downloading semantic search model (first run)…".to_string()),
            Index::Moments => Some(
                "Downloading sentiment models (first run; on-device, audio-prosody)…".to_string(),
            ),
        },
        BackfillStep::NoticeFetched => Some("Semantic model downloaded.".to_string()),
        BackfillStep::NoticeUpToDate => match index {
            Index::Semantic => Some("Semantic index is already up to date.".to_string()),
            Index::Moments => Some("Meeting moments are up to date.".to_string()),
        },
        BackfillStep::NoticeBegin => {
            let mut r = match index {
                Index::Semantic => "Building semantic index for ".to_string(),
                Index::Moments => "Analyzing moments for ".to_string(),
            };
            r.push_str(&write_u64(missing as u64));
            r.push_str(" session(s)…");
            Some(r)
        },
        BackfillStep::NoticeEnd => match index {
            Index::Semantic => Some(sweep_text("Semantic index built", done, missing)),
            Index::Moments => Some(sweep_text("Meeting moments analyzed", done, missing)),
        },
        BackfillStep::Run => None,
        BackfillStep::EndJob => None,
    }
}

/// A model file has to be fetched: it is missing, or empty.
pub fn wants_fetch(size: Option<u64>) -> (r: bool)
    ensures
        r == !(size matches Some(n) && n > 0),
{
    match size {
        Some(n) => n == 0,
        None => true,
    }
}

/// The report about an error of a worker: the worker that crashed, and what the
/// user can do.
pub fn crash_text(worker: &str) -> (r: String)
    ensures
        r@ == "internal error: the "@ + worker@
            + " worker crashed — details in logs/crash.log; restart the app to recover"@,
{
    let mut r = "internal error: the ".to_string();
    r.push_str(worker);
    r.push_str(" worker crashed — details in logs/crash.log; restart the app to recover");
    r
}

/// What happens to a session that is looked through for moments.
#[derive(Debug, Clone, Copy, PartialEq, Eq, Structural)]
pub enum MomentWork {
    /// The session is unknown: that counts as a failure.
    Unknown,
    /// It has no audio: old moments go, and that counts as a success.
    Clear,
    /// Its tracks are looked through.
    Look,
}

/// What happens to a session that is looked through for moments.
pub fn moment_work(known: bool, has_audio: bool) -> (r: MomentWork)
    ensures
        r == (if !known {
            MomentWork::Unknown
        } else if !has_audio {
            MomentWork::Clear
        } else {
            MomentWork::Look
        }),
{
    if !known {
        MomentWork::Unknown
    } else if !has_audio {
        MomentWork::Clear
    } else {
        MomentWork::Look
    }
}

/// How fetching a model for moments went.
#[derive(Debug, Clone)]
pub enum FetchAnswer {
    Here,
    Unavailable,
    Failed(String),
}

/// The notices about the two models, and whether moments can be looked for: the
/// model of sounds is optional, the model of emotions is not.
pub fn fetch_notices(sounds: &FetchAnswer, emotions: &FetchAnswer) -> (r: (
    Option<String>,
    Option<String>,
    bool,
))
    ensures
        match *sounds {
            FetchAnswer::Here => r.0 is None,
            FetchAnswer::Unavailable => r.0 is Some && r.0->0@
                == "Audio-event model (YAMNet) is unavailable — only speech-emotion moments will be produced. See logs."@,
            FetchAnswer::Failed(e) => r.0 is Some && r.0->0@ == Failure::SoundModel.head() + ": "@
                + e@,
        },
        match *emotions {
            FetchAnswer::Here => r.1 is None,
            FetchAnswer::Unavailable => r.1 is Some && r.1->0@
                == "Speech-emotion model is unavailable; cannot analyse moments."@,
            FetchAnswer::Failed(e) => r.1 is Some && r.1->0@ == Failure::EmotionModel.head() + ": "@
                + e@,
        },
        r.2 == (*emotions is Here),
{
    let a = match sounds {
        FetchAnswer::Here => None,
        FetchAnswer::Unavailable => Some(
            "Audio-event model (YAMNet) is unavailable — only speech-emotion moments will be produced. See logs.".to_string(),
        ),
        FetchAnswer::Failed(e) => Some(Failure::SoundModel.text(e)),
    };
    let (b, ok) = match emotions {
        FetchAnswer::Here => (None, true),
        FetchAnswer::Unavailable => (
            Some("Speech-emotion model is unavailable; cannot analyse moments.".to_string()),
            false,
        ),
        FetchAnswer::Failed(e) => (Some(Failure::EmotionModel.text(e)), false),
    };
    (a, b, ok)
}

// ---------------------------------------------------------------------------
// Working through a list of sessions
// ---------------------------------------------------------------------------

/// How far a run over a list of sessions has come.
pub struct Sweep {
    next: usize,
    total: usize,
    done: usize,
}

/// What a [`Sweep`] holds.
#[verifier::ext_equal]
pub struct SweepView {
    /// The next session.
    pub next: nat,
    pub total: nat,
    /// How many sessions went well.
    pub done: nat,
}

impl View for Sweep {
    type V = SweepView;

    closed spec fn view(&self) -> SweepView {
        SweepView { next: self.next as nat, total: self.total as nat, done: self.done as nat }
    }
}

impl SweepView {
    /// No more went well than were tried, and no more were tried than there are.
    pub open spec fn wf(self) -> bool {
        self.done <= self.next <= self.total
    }

    /// The state after the next session was tried.
    pub open spec fn tried(self, ok: bool) -> SweepView {
        SweepView {
            next: self.next + 1,
            done: if ok {
                self.done + 1
            } else {
                self.done
            },
            ..self
        }
    }

    /// The state after several sessions were tried.
    pub open spec fn tried_all(self, oks: Seq<bool>) -> SweepView
        decreases oks.len(),
    {
        if oks.len() == 0 {
            self
        } else {
            self.tried_all(oks.drop_last()).tried(oks.last())
        }
    }
}

/// How many entries are true.
pub open spec fn count_true(oks: Seq<bool>) -> nat
    decreases oks.len(),
{
    if oks.len() == 0 {
        0
    } else {
        count_true(oks.drop_last()) + if oks.last() {
            1nat
        } else {
            0
        }
    }
}

impl Sweep {
    #[verifier::type_invariant]
    spec fn valid(self) -> bool {
        self.done <= self.next <= self.total
    }

    /// Begins a run over `total` sessions.
    pub fn new(total: usize) -> (r: Sweep)
        ensures
            r@ == (SweepView { next: 0, total: total as nat, done: 0 }),
    {
        Sweep { next: 0, total, done: 0 }
    }

    /// The next session to try; none when all were tried or the run was
    /// cancelled.
    pub fn upcoming(&self, cancelled: bool) -> (r: Option<usize>)
        ensures
            self@.wf(),
            match r {
                Some(i) => !cancelled && i == self@.next && i < self@.total,
                None => cancelled || self@.next == self@.total,
            },
    {
        proof {
            use_type_invariant(self);
        }
        if cancelled || self.next == self.total {
            None
        } else {
            Some(self.next)
        }
    }

    /// The session was tried.
    pub fn report(&mut self, ok: bool)
        requires
            old(self)@.next < old(self)@.total,
        ensures
            final(self)@ == old(self)@.tried(ok),
    {
        proof {
            use_type_invariant(&*self);
        }
        let done: usize = if ok {
            self.done + 1
        } else {
            self.done
        };
        *self = Sweep { next: self.next + 1, total: self.total, done };
    }

    /// How many sessions went well.
    pub fn done(&self) -> (r: usize)
        ensures
            r == self@.done,
    {
        self.done
    }
}

/// A run tries the sessions in list order, each once, and counts those that went
/// well.
pub proof fn sweep_counts_successes(total: nat, oks: Seq<bool>)
    ensures
        ({
            let s = (SweepView { next: 0, total, done: 0 }).tried_all(oks);
            &&& s.next == oks.len()
            &&& s.done == count_true(oks)
            &&& s.total == total
        }),
    decreases oks.len(),
{
    if oks.len() > 0 {
        sweep_counts_successes(total, oks.drop_last());
    }
}

/// The notice at the end of a run, such as "Semantic index built (2/3
/// sessions)."
pub fn sweep_text(head: &str, done: usize, total: usize) -> (r: String)
    ensures
        r@ == head@ + " ("@ + decimal(done as nat) + "/"@ + decimal(total as nat) + " sessions)."@,
{
    let mut r = head.to_string();
    r.push_str(" (");
    r.push_str(&write_u64(done as u64));
    r.push_str("/");
    r.push_str(&write_u64(total as u64));
    r.push_str(" sessions).");
    r
}

// ---------------------------------------------------------------------------
// Compressing the kept audio
// ---------------------------------------------------------------------------

/// What a run that compresses kept audio does next.
#[derive(Debug, Clone, Copy, PartialEq, Eq, Structural)]
pub enum AudioMove {
    /// Look for the tracks of a session.
    Session(usize),
    /// Compress a track of the session.
    Track(usize),
    Finish,
}

/// How far a run that compresses kept audio has come.
pub struct AudioSweep {
    sessions: usize,
    next: usize,
    tracks: usize,
    track: usize,
    any: bool,
    touched: usize,
    reclaimed: u64,
}

/// What an [`AudioSweep`] holds.
#[verifier::ext_equal]
pub struct AudioSweepView {
    pub sessions: nat,
    /// The next session.
    pub next: nat,
    /// The tracks of the session before it.
    pub tracks: nat,
    /// The next of these tracks.
    pub track: nat,
    /// Whether one of these tracks was compressed.
    pub any: bool,
    /// How many sessions have a track that was compressed.
    pub touched: nat,
    /// How many bytes were saved.
    pub reclaimed: nat,
}

impl View for AudioSweep {
    type V = AudioSweepView;

    closed spec fn view(&self) -> AudioSweepView {
        AudioSweepView {
            sessions: self.sessions as nat,
            next: self.next as nat,
            tracks: self.tracks as nat,
            track: self.track as nat,
            any: self.any,
            touched: self.touched as nat,
            reclaimed: self.reclaimed as nat,
        }
    }
}

/// The beginning of a run that compresses kept audio.
pub open spec fn audio_sweep_of(sessions: nat) -> AudioSweepView {
    AudioSweepView {
        sessions,
        next: 0,
        tracks: 0,
        track: 0,
        any: false,
        touched: 0,
        reclaimed: 0,
    }
}

impl AudioSweepView {
    /// The next session has this many tracks.
    pub open spec fn opened(self, tracks: nat) -> AudioSweepView {
        AudioSweepView { next: self.next + 1, tracks, track: 0, any: false, ..self }
    }

    /// The next track was tried, and saved so many bytes if it was compressed. Its
    /// session is touched from the first such track on.
    pub open spec fn tried(self, saved: Option<u64>) -> AudioSweepView {
        match saved {
            Some(bytes) => AudioSweepView {
                track: self.track + 1,
                any: true,
                touched: if self.any {
                    self.touched
                } else {
                    self.touched + 1
                },
                reclaimed: self.reclaimed + bytes as nat,
                ..self
            },
            None => AudioSweepView { track: self.track + 1, ..self },
        }
    }

    /// The state after several tracks were tried.
    pub open spec fn tried_all(self, saved: Seq<Option<u64>>) -> AudioSweepView
        decreases saved.len(),
    {
        if saved.len() == 0 {
            self
        } else {
            self.tried_all(saved.drop_last()).tried(saved.last())
        }
    }

    /// The state after several sessions. Each has its number of tracks and what the
    /// tracks saved that were tried.
    pub open spec fn swept(self, runs: Seq<(nat, Seq<Option<u64>>)>) -> AudioSweepView
        decreases runs.len(),
    {
        if runs.len() == 0 {
            self
        } else {
            self.swept(runs.drop_last()).opened(runs.last().0).tried_all(runs.last().1)
        }
    }
}

/// Whether a track was compressed.
pub open spec fn any_saved(saved: Seq<Option<u64>>) -> bool {
    exists|i: int| 0 <= i < saved.len() && (#[trigger] saved[i]) is Some
}

/// The bytes that the tracks of a session saved.
pub open spec fn bytes_saved(saved: Seq<Option<u64>>) -> nat
    decreases saved.len(),
{
    if saved.len() == 0 {
        0
    } else {
        bytes_saved(saved.drop_last()) + match saved.last() {
            Some(bytes) => bytes as nat,
            None => 0,
        }
    }
}

/// How many sessions have a track that was compressed.
pub open spec fn sessions_touched(runs: Seq<(nat, Seq<Option<u64>>)>) -> nat
    decreases runs.len(),
{
    if runs.len() == 0 {
        0
    } else {
        sessions_touched(runs.drop_last()) + if any_saved(runs.last().1) {
            1nat
        } else {
            0
        }
    }
}

/// The bytes that all sessions saved.
pub open spec fn bytes_reclaimed(runs: Seq<(nat, Seq<Option<u64>>)>) -> nat
    decreases runs.len(),
{
    if runs.len() == 0 {
        0
    } else {
        bytes_reclaimed(runs.drop_last()) + bytes_saved(runs.last().1)
    }
}

impl AudioSweep {
    #[verifier::type_invariant]
    spec fn valid(self) -> bool {
        &&& self.next <= self.sessions
        &&& self.track <= self.tracks
        &&& self.touched <= self.next
        &&& !self.any && self.tracks > 0 ==> self.touched < self.next
    }

    /// Begins a run over this many sessions.
    pub fn new(sessions: usize) -> (r: AudioSweep)
        ensures
            r@ == audio_sweep_of(sessions as nat),
    {
        AudioSweep { sessions, next: 0, tracks: 0, track: 0, any: false, touched: 0, reclaimed: 0 }
    }

    /// What to do next: the tracks of the session in turn, then the next session. A
    /// run can be cancelled before each track and each session.
    pub fn upcoming(&self, cancelled: bool) -> (r: AudioMove)
        ensures
            match r {
                AudioMove::Track(i) => !cancelled && i == self@.track && i < self@.tracks,
                AudioMove::Session(i) => !cancelled && self@.track == self@.tracks && i
                    == self@.next && i < self@.sessions,
                AudioMove::Finish => cancelled || (self@.track == self@.tracks && self@.next
                    == self@.sessions),
            },
    {
        proof {
            use_type_invariant(self);
        }
        if cancelled {
            AudioMove::Finish
        } else if self.track < self.tracks {
            AudioMove::Track(self.track)
        } else if self.next < self.sessions {
            AudioMove::Session(self.next)
        } else {
            AudioMove::Finish
        }
    }

    /// The next session has this many tracks to compress.
    pub fn open(&mut self, tracks: usize)
        requires
            old(self)@.next < old(self)@.sessions,
        ensures
            final(self)@ == old(self)@.opened(tracks as nat),
    {
        proof {
            use_type_invariant(&*self);
        }
        *self =
        AudioSweep {
            sessions: self.sessions,
            next: self.next + 1,
            tracks,
            track: 0,
            any: false,
            touched: self.touched,
            reclaimed: self.reclaimed,
        };
    }

    /// The next track was tried; it was compressed if it saved bytes.
    pub fn report(&mut self, saved: Option<u64>)
        requires
            old(self)@.track < old(self)@.tracks,
            saved matches Some(bytes) ==> old(self)@.reclaimed + bytes <= u64::MAX,
        ensures
            final(self)@ == old(self)@.tried(saved),
    {
        proof {
            use_type_invariant(&*self);
        }
        let (any, touched, reclaimed) = match saved {
            Some(bytes) => (
                true,
                if self.any {
                    self.touched
                } else {
                    self.touched + 1
                },
                self.reclaimed + bytes,
            ),
            None => (self.any, self.touched, self.reclaimed),
        };
        *self =
        AudioSweep {
            sessions: self.sessions,
            next: self.next,
            tracks: self.tracks,
            track: self.track + 1,
            any,
            touched,
            reclaimed,
        };
    }

    /// The sessions touched and the bytes reclaimed.
    pub fn result(&self) -> (r: (usize, u64))
        ensures
            r.0 == self@.touched,
            r.1 == self@.reclaimed,
    {
        (self.touched, self.reclaimed)
    }
}

/// What is said at the end of a run that compresses kept audio.
#[derive(Debug, Clone, Copy, PartialEq, Eq, Structural)]
pub enum AudioReport {
    /// How much was saved; the sessions are listed anew.
    Reclaimed,
    /// That there was nothing to do.
    Nothing,
    Silence,
}

/// What is said at the end of a run: what it did, or that there was nothing to do if
/// the user asked for it.
pub fn audio_report(touched: usize, asked: bool) -> (r: AudioReport)
    ensures
        r == (if touched > 0 {
            AudioReport::Reclaimed
        } else if asked {
            AudioReport::Nothing
        } else {
            AudioReport::Silence
        }),
{
    if touched > 0 {
        AudioReport::Reclaimed
    } else if asked {
        AudioReport::Nothing
    } else {
        AudioReport::Silence
    }
}

proof fn lemma_tracks_tried(s: AudioSweepView, saved: Seq<Option<u64>>)
    requires
        !s.any,
    ensures
        ({
            let t = s.tried_all(saved);
            &&& t.sessions == s.sessions && t.next == s.next && t.tracks == s.tracks
            &&& t.track == s.track + saved.len()
            &&& t.any == any_saved(saved)
            &&& t.touched == s.touched + if any_saved(saved) {
                1nat
            } else {
                0
            }
            &&& t.reclaimed == s.reclaimed + bytes_saved(saved)
        }),
    decreases saved.len(),
{
    if saved.len() > 0 {
        let p = saved.drop_last();
        lemma_tracks_tried(s, p);
        if any_saved(p) {
            let i = choose|i: int| 0 <= i < p.len() && (#[trigger] p[i]) is Some;
            assert(saved[i] is Some);
        }
        if saved.last() is Some {
            assert(saved[saved.len() - 1] is Some);
        } else if any_saved(saved) {
            let i = choose|i: int| 0 <= i < saved.len() && (#[trigger] saved[i]) is Some;
            assert(p[i] is Some);
        }
    }
}

/// A run counts the sessions with a track that was compressed, and the bytes that
/// all tracks saved, also where it was cancelled between the tracks of a session.
pub proof fn audio_sweep_counts(sessions: nat, runs: Seq<(nat, Seq<Option<u64>>)>)
    ensures
        ({
            let s = audio_sweep_of(sessions).swept(runs);
            &&& s.next == runs.len()
            &&& s.touched == sessions_touched(runs)
            &&& s.reclaimed == bytes_reclaimed(runs)
            &&& s.sessions == sessions
        }),
    decreases runs.len(),
{
    if runs.len() > 0 {
        let p = runs.drop_last();
        audio_sweep_counts(sessions, p);
        lemma_tracks_tried(
            audio_sweep_of(sessions).swept(p).opened(runs.last().0),
            runs.last().1,
        );
    }
}

// ---------------------------------------------------------------------------
// Lines of a track
// ---------------------------------------------------------------------------

/// The lines that a track holds: "me" the user's, "others" those without a
/// speaker, "spk-N" those of one speaker.
pub open spec fn on_track(seg: Segment, suffix: Seq<char>) -> bool {
    if suffix == "me"@ {
        seg.source is Me
    } else if suffix == "others"@ {
        seg.source is Others && seg.speaker is None
    } else {
        &&& seg.source is Others
        &&& match (seg.speaker, keyed_speaker(suffix)) {
            (Some(a), Some(b)) => a == b,
            (None, None) => true,
            _ => false,
        }
    }
}

/// Whether a line belongs to a track.
pub fn track_holds(seg: &Segment, suffix: &str) -> (r: bool)
    ensures
        r == on_track(*seg, suffix@),
{
    let others = match seg.source {
        Source::Others => true,
        Source::Me => false,
    };
    if same(suffix, "me") {
        return !others;
    }
    if same(suffix, "others") {
        return others && seg.speaker.is_none();
    }
    let fits = match (seg.speaker, speaker_key(suffix)) {
        (Some(a), Some(b)) => a == b,
        (None, None) => true,
        _ => false,
    };
    others && fits
}

/// Where the analysed part of a line ends: at its end, but not later than the
/// cap after its start; at least one millisecond is read.
pub fn utterance_end(start_ms: u64, end_ms: u64, cap_ms: u64) -> (r: u64)
    requires
        start_ms < u64::MAX,
    ensures
        ({
            let end = if end_ms > start_ms + 1 {
                end_ms as int
            } else {
                start_ms + 1
            };
            r == if start_ms + cap_ms < end {
                start_ms + cap_ms
            } else {
                end
            }
        }),
        r > start_ms || cap_ms == 0,
{
    let capped: u64 = start_ms.saturating_add(cap_ms);
    let end: u64 = if end_ms > start_ms + 1 {
        end_ms
    } else {
        start_ms + 1
    };
    if capped < end {
        capped
    } else {
        end
    }
}

/// A backfill works through the sessions exactly if its model is there and the database
/// opens and a session is missing, and then says how it went; with nothing missing it says
/// so, and a model that has to be fetched is announced.
pub proof fn backfills_do_what_is_missing(index: Index, f: BackfillFacts)
    ensures
        ({
            let r = backfill_of(index, f);
            let ready = (!f.fetch || f.fetched) && f.loaded && f.opened;
            &&& r.contains(BackfillStep::NoticeFetching) <==> f.fetch
            &&& r.contains(BackfillStep::NoticeFetched) <==> f.fetch && f.fetched && index
                == Index::Semantic
            &&& r.contains(BackfillStep::Run) <==> ready && f.missing > 0
            &&& r.contains(BackfillStep::NoticeBegin) <==> ready && f.missing > 0
            &&& r.contains(BackfillStep::NoticeEnd) <==> ready && f.missing > 0
            &&& r.contains(BackfillStep::NoticeUpToDate) <==> ready && f.missing == 0
            &&& f.fetch ==> r[0] == BackfillStep::NoticeFetching
            &&& ready && f.missing > 0 ==> r[r.len() - 2] == BackfillStep::NoticeEnd && r[r.len() - 3]
                == BackfillStep::Run
        }),
{
    broadcast use vstd::seq_lib::lemma_seq_concat_contains_all_elements;

    let a = seq![BackfillStep::NoticeFetching, BackfillStep::NoticeFetched];
    assert(a[0] == BackfillStep::NoticeFetching && a[1] == BackfillStep::NoticeFetched);
    assert(seq![BackfillStep::NoticeFetching][0] == BackfillStep::NoticeFetching);
    assert(seq![BackfillStep::NoticeUpToDate][0] == BackfillStep::NoticeUpToDate);
    let b = seq![BackfillStep::NoticeBegin, BackfillStep::Run, BackfillStep::NoticeEnd];
    assert(b[0] == BackfillStep::NoticeBegin && b[1] == BackfillStep::Run && b[2]
        == BackfillStep::NoticeEnd);
}

/// Successes add up over the parts of a run.
pub proof fn successes_add_up(a: Seq<bool>, b: Seq<bool>)
    ensures
        count_true(a + b) == count_true(a) + count_true(b),
        count_true(seq![true]) == 1 && count_true(seq![false]) == 0,
    decreases b.len(),
{
    assert(seq![true].drop_last() =~= Seq::empty());
    assert(seq![false].drop_last() =~= Seq::empty());
    assert(count_true(Seq::empty()) == 0);
    if b.len() == 0 {
        assert(a + b =~= a);
    } else {
        assert((a + b).drop_last() =~= a + b.drop_last());
        successes_add_up(a, b.drop_last());
    }
}

/// The bytes saved add up over tracks and over sessions, and so do the sessions with a
/// compressed track.
pub proof fn savings_add_up(
    a: Seq<Option<u64>>,
    b: Seq<Option<u64>>,
    n: u64,
    tracks: nat,
    x: Seq<(nat, Seq<Option<u64>>)>,
    y: Seq<(nat, Seq<Option<u64>>)>,
)
    ensures
        bytes_saved(a + b) == bytes_saved(a) + bytes_saved(b),
        bytes_saved(seq![Some(n)]) == n && bytes_saved(seq![None]) == 0,
        bytes_reclaimed(x + y) == bytes_reclaimed(x) + bytes_reclaimed(y),
        bytes_reclaimed(seq![(tracks, a)]) == bytes_saved(a),
        sessions_touched(x + y) == sessions_touched(x) + sessions_touched(y),
        a.contains(Some(n)) ==> sessions_touched(seq![(tracks, a)]) == 1,
        (forall|i: int| 0 <= i < a.len() ==> (#[trigger] a[i]) is None) ==> sessions_touched(
            seq![(tracks, a)],
        ) == 0,
    decreases b.len() + y.len(),
{
    assert(seq![Some(n)].drop_last() =~= Seq::empty());
    assert(seq![None::<u64>].drop_last() =~= Seq::empty());
    assert(bytes_saved(Seq::empty()) == 0);
    let one = seq![(tracks, a)];
    assert(one.drop_last() =~= Seq::empty());
    assert(bytes_reclaimed(one.drop_last()) == 0);
    assert(sessions_touched(one.drop_last()) == 0);
    if b.len() > 0 {
        assert((a + b).drop_last() =~= a + b.drop_last());
        savings_add_up(a, b.drop_last(), n, tracks, x, y);
    } else if y.len() > 0 {
        assert((x + y).drop_last() =~= x + y.drop_last());
        savings_add_up(a, b, n, tracks, x, y.drop_last());
    } else {
        assert(a + b =~= a);
        assert(x + y =~= x);
    }
}

/// Every line belongs to one track: the user's to theirs, one with a speaker to that
/// speaker's, and one without to the rest.
pub proof fn lines_belong_to_one_track(seg: Segment, n: i32)
    ensures
        on_track(seg, "me"@) <==> seg.source is Me,
        on_track(seg, "others"@) <==> seg.source is Others && seg.speaker is None,
        on_track(seg, crate::tracks::speaker_suffix(n as int)) <==> seg.source is Others
            && seg.speaker == Some(n),
{
    reveal_strlit("me");
    reveal_strlit("others");
    reveal_strlit("spk-");
    assert("me"@[0] == 'm' && "others"@[0] == 'o' && "spk-"@[0] == 's');
    assert(crate::tracks::speaker_suffix(n as int)[0] == 's');
    crate::labels::keys_name_speakers(n, crate::tracks::speaker_suffix(n as int));
}

} // verus!
