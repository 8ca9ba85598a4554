//! Recording: what the recorder does between and during sessions, what a session
//! writes, and what happens when it stops.

use crate::llm::llm_backend_configured;
#[allow(unused_imports)]
use crate::llm::configured;
use crate::model::{Features, RecorderCmd, Segment};
#[allow(unused_imports)]
use crate::number::{read_u64, spelled, write_u64};
use crate::settings::Settings;
#[allow(unused_imports)]
use crate::text::{same, trim, trimmed};
use vstd::prelude::*;

verus! {

// ---------------------------------------------------------------------------
// Between sessions
// ---------------------------------------------------------------------------

/// What a recording is made with.
#[derive(Debug, Clone)]
pub struct SessionOpts {
    pub model: String,
    pub keep_audio: bool,
    pub input_device: Option<String>,
    pub audio_dir: String,
    pub record_mic: bool,
    pub record_system: bool,
    /// Transcribe while recording; otherwise only audio is captured.
    pub live: bool,
}

/// What the recorder does between sessions.
#[derive(Debug, Clone)]
pub enum ControlStep {
    StopMicTest,
    StartMicTest { device: Option<String> },
    RunSession(SessionOpts),
    RunIntegration(SessionOpts),
    Quit,
}

/// The sources of a recording; with none asked for, both.
pub open spec fn guarded(mic: bool, system: bool) -> (bool, bool) {
    if !mic && !system {
        (true, true)
    } else {
        (mic, system)
    }
}

/// A running microphone test is ended.
pub open spec fn end_test(testing: bool) -> Seq<ControlStep> {
    if testing {
        seq![ControlStep::StopMicTest]
    } else {
        Seq::empty()
    }
}

/// What a command does between sessions. `testing` says that a microphone test
/// runs, `forced` that the environment asks for the integration.
pub open spec fn control_of(cmd: RecorderCmd, testing: bool, forced: bool) -> Seq<ControlStep> {
    match cmd {
        RecorderCmd::MicTestStart { device } => end_test(testing).push(
            ControlStep::StartMicTest { device },
        ),
        RecorderCmd::MicTestStop => end_test(testing),
        RecorderCmd::Start {
            model,
            keep_audio,
            input_device,
            audio_dir,
            record_mic,
            record_system,
            live,
            integration,
        } => {
            let (mic, system) = guarded(record_mic, record_system);
            let opts = SessionOpts {
                model,
                keep_audio,
                input_device,
                audio_dir,
                record_mic: mic,
                record_system: system,
                live,
            };
            end_test(testing).push(
                if integration || forced {
                    ControlStep::RunIntegration(opts)
                } else {
                    ControlStep::RunSession(opts)
                },
            )
        },
        RecorderCmd::Shutdown => seq![ControlStep::Quit],
        _ => Seq::empty(),
    }
}

/// What a command does between sessions.
pub fn control_steps(cmd: RecorderCmd, testing: bool, forced: bool) -> (r: Vec<ControlStep>)
    ensures
        r@ == control_of(cmd, testing, forced),
{
    let mut r: Vec<ControlStep> = Vec::new();
    match cmd {
        RecorderCmd::MicTestStart { device } => {
            if testing {
                r.push(ControlStep::StopMicTest);
            }
            r.push(ControlStep::StartMicTest { device });
        },
        RecorderCmd::MicTestStop => {
            if testing {
                r.push(ControlStep::StopMicTest);
            }
        },
        RecorderCmd::Start {
            model,
            keep_audio,
            input_device,
            audio_dir,
            record_mic,
            record_system,
            live,
            integration,
        } => {
            if testing {
                r.push(ControlStep::StopMicTest);
            }
            let (mic, system) = if !record_mic && !record_system {
                (true, true)
            } else {
                (record_mic, record_system)
            };
            let opts = SessionOpts {
                model,
                keep_audio,
                input_device,
                audio_dir,
                record_mic: mic,
                record_system: system,
                live,
            };
            if integration || forced {
                r.push(ControlStep::RunIntegration(opts));
            } else {
                r.push(ControlStep::RunSession(opts));
            }
        },
        RecorderCmd::Shutdown => {
            r.push(ControlStep::Quit);
        },
        _ => {},
    }
    r
}

/// A recording always has a source, and never starts while a microphone test
/// still holds the device.
pub proof fn recordings_own_a_source(cmd: RecorderCmd, testing: bool, forced: bool, i: int)
    requires
        0 <= i < control_of(cmd, testing, forced).len(),
    ensures
        control_of(cmd, testing, forced)[i] matches ControlStep::RunSession(o) ==> {
            &&& o.record_mic || o.record_system
            &&& testing ==> i == 1 && control_of(cmd, testing, forced)[0]
                == ControlStep::StopMicTest
        },
{
}

// ---------------------------------------------------------------------------
// During a session
// ---------------------------------------------------------------------------

/// What a command does during a session.
#[derive(Debug, Clone, Copy, PartialEq, Eq, Structural)]
pub enum WaitStep {
    Ignore,
    MuteMic(bool),
    MuteSystem(bool),
    /// Bookmark this time.
    Bookmark(u64),
    /// The session is over; `shutdown` says that the recorder ends with it.
    End { shutdown: bool },
}

/// The time of a bookmark dropped now: a little before.
pub open spec fn bookmark_time(elapsed: u64, back: u64) -> u64 {
    if elapsed >= back {
        (elapsed - back) as u64
    } else {
        0
    }
}

/// What a command does during a session; a closed channel ends it.
pub open spec fn waited(cmd: Option<RecorderCmd>, elapsed: u64, back: u64) -> WaitStep {
    match cmd {
        None => WaitStep::End { shutdown: false },
        Some(RecorderCmd::Stop) => WaitStep::End { shutdown: false },
        Some(RecorderCmd::Shutdown) => WaitStep::End { shutdown: true },
        Some(RecorderCmd::SetMicMuted(m)) => WaitStep::MuteMic(m),
        Some(RecorderCmd::SetSystemMuted(m)) => WaitStep::MuteSystem(m),
        Some(RecorderCmd::DropBookmark) => WaitStep::Bookmark(bookmark_time(elapsed, back)),
        Some(_) => WaitStep::Ignore,
    }
}

/// What a command does during a session. A second start is ignored, and so are
/// microphone tests.
pub fn wait_for_stop(cmd: Option<RecorderCmd>, elapsed_ms: u64, back_offset_ms: u64) -> (r:
    WaitStep)
    ensures
        r == waited(cmd, elapsed_ms, back_offset_ms),
{
    match cmd {
        None => WaitStep::End { shutdown: false },
        Some(c) => match c {
            RecorderCmd::Stop => WaitStep::End { shutdown: false },
            RecorderCmd::Shutdown => WaitStep::End { shutdown: true },
            RecorderCmd::SetMicMuted(m) => WaitStep::MuteMic(m),
            RecorderCmd::SetSystemMuted(m) => WaitStep::MuteSystem(m),
            RecorderCmd::DropBookmark => WaitStep::Bookmark(
                elapsed_ms.saturating_sub(back_offset_ms),
            ),
            _ => WaitStep::Ignore,
        },
    }
}

/// What an integration session hears while it waits.
#[derive(Debug, Clone)]
pub enum IntegrationInput {
    Command(RecorderCmd),
    /// Nothing for a while; `ended` says that the platform ended the session.
    Quiet { ended: bool },
    Closed,
}

/// What an integration session does with what it hears; muting means nothing
/// there.
pub fn integration_wait(input: IntegrationInput, elapsed_ms: u64, back_offset_ms: u64) -> (r:
    WaitStep)
    ensures
        r == (match input {
            IntegrationInput::Command(RecorderCmd::Stop) => WaitStep::End { shutdown: false },
            IntegrationInput::Command(RecorderCmd::Shutdown) => WaitStep::End { shutdown: true },
            IntegrationInput::Command(RecorderCmd::DropBookmark) => WaitStep::Bookmark(
                bookmark_time(elapsed_ms, back_offset_ms),
            ),
            IntegrationInput::Command(_) => WaitStep::Ignore,
            IntegrationInput::Quiet { ended } => if ended {
                WaitStep::End { shutdown: false }
            } else {
                WaitStep::Ignore
            },
            IntegrationInput::Closed => WaitStep::End { shutdown: false },
        }),
{
    match input {
        IntegrationInput::Command(c) => match c {
            RecorderCmd::Stop => WaitStep::End { shutdown: false },
            RecorderCmd::Shutdown => WaitStep::End { shutdown: true },
            RecorderCmd::DropBookmark => WaitStep::Bookmark(
                elapsed_ms.saturating_sub(back_offset_ms),
            ),
            _ => WaitStep::Ignore,
        },
        IntegrationInput::Quiet { ended } => if ended {
            WaitStep::End { shutdown: false }
        } else {
            WaitStep::Ignore
        },
        IntegrationInput::Closed => WaitStep::End { shutdown: false },
    }
}

// ---------------------------------------------------------------------------
// What a session writes
// ---------------------------------------------------------------------------

/// The id of a session that begins at this time.
pub fn session_id_at(started_at: u64) -> (r: String)
    ensures
        r@ == crate::kb::stamped_id("sess-"@, started_at),
{
    let mut r = "sess-".to_string();
    r.push_str(&write_u64(started_at));
    r
}

/// What a session writes and captures.
#[derive(Debug, Clone)]
pub struct SessionPlan {
    /// The audio stays after the session.
    pub persist_audio: bool,
    /// Speakers are told apart when the session stops.
    pub diarize_auto: bool,
    /// Some audio is written, for good or for the time being.
    pub writes_audio: bool,
    pub me_wav: bool,
    pub others_wav: bool,
    /// The one application to capture.
    pub app_target: Option<String>,
    /// An application should be captured, but none is picked.
    pub warn_no_app: bool,
}

/// One application is captured instead of the whole machine.
pub open spec fn one_app(s: Settings, record_system: bool) -> bool {
    record_system && s.capture_mode@ == "app"@
}

/// What a session writes and captures.
pub open spec fn planned(
    keep_audio: bool,
    live: bool,
    record_mic: bool,
    record_system: bool,
    s: Settings,
    f: Features,
) -> SessionPlan {
    let diarize_auto = f.diarization && record_system && s.diarize_auto;
    let persist_audio = keep_audio || !live;
    SessionPlan {
        persist_audio,
        diarize_auto,
        writes_audio: persist_audio || diarize_auto,
        me_wav: record_mic && persist_audio,
        others_wav: record_system && (persist_audio || diarize_auto),
        app_target: if one_app(s, record_system) && s.capture_app_id@.len() > 0 {
            Some(s.capture_app_id)
        } else {
            None
        },
        warn_no_app: one_app(s, record_system) && s.capture_app_id@.len() == 0,
    }
}

/// Plans what a session writes and captures.
pub fn session_plan(opts: &SessionOpts, settings: &Settings, features: Features) -> (r: SessionPlan)
    ensures
        r == planned(
            opts.keep_audio,
            opts.live,
            opts.record_mic,
            opts.record_system,
            *settings,
            features,
        ),
{
    let diarize_auto = features.diarization && opts.record_system && settings.diarize_auto;
    let persist_audio = opts.keep_audio || !opts.live;
    let app = opts.record_system && same(&settings.capture_mode, "app");
    let picked = settings.capture_app_id.as_str().unicode_len() > 0;
    SessionPlan {
        persist_audio,
        diarize_auto,
        writes_audio: persist_audio || diarize_auto,
        me_wav: opts.record_mic && persist_audio,
        others_wav: opts.record_system && (persist_audio || diarize_auto),
        app_target: if app && picked {
            Some(settings.capture_app_id.clone())
        } else {
            None
        },
        warn_no_app: app && !picked,
    }
}

/// A recording without live transcription always writes every channel it
/// captures: its audio is the transcript to come.
pub proof fn captures_are_written(
    keep_audio: bool,
    record_mic: bool,
    record_system: bool,
    s: Settings,
    f: Features,
)
    ensures
        ({
            let p = planned(keep_audio, false, record_mic, record_system, s, f);
            &&& p.persist_audio
            &&& p.me_wav == record_mic
            &&& p.others_wav == record_system
        }),
{
}

// ---------------------------------------------------------------------------
// When a session stops
// ---------------------------------------------------------------------------

/// What is done when a session stops, in order.
#[derive(Debug, Clone, Copy, PartialEq, Eq, Structural)]
pub enum StopStep {
    /// Report that a worker crashed.
    NoticeCrash,
    /// Store the time of the end.
    EndSession,
    /// Report that the recorder is idle.
    ReportIdle,
    /// Transcribe the written audio.
    PostTranscribe,
    /// Report that the transcription waits for the user.
    NoticeDeferred,
    /// Tell the speakers of the system audio apart.
    Diarize,
    /// Compress the transcript.
    Compress,
    /// Fold the session into the overview.
    Fold,
    /// Index the session for semantic search.
    Embed,
    /// Look for moments.
    Analyze,
    /// Remove the system audio that was written for the time being.
    RemoveTemporary,
    /// Remove the audio that was written only to be transcribed.
    PurgeCapture,
    /// Learn the voices of the participants' tracks.
    EnrollVoices,
    /// Report the speaker names.
    ReportSpeakers,
    /// Report the session list.
    ReportSessions,
}

/// What a stop depends on.
#[derive(Debug, Clone, Copy)]
pub struct StopFacts {
    pub crashed: bool,
    pub live: bool,
    pub keep_audio: bool,
    pub persist_audio: bool,
    pub diarize_auto: bool,
    pub others_wav: bool,
    /// The transcript is made after the session.
    pub auto_transcribe: bool,
    /// The overview is kept up to date, and a language model is configured.
    pub overview: bool,
    pub semantic: bool,
    /// The build looks for moments, and the models are on disk.
    pub moments: bool,
    pub voiceprints: bool,
}

/// One step if a condition holds.
pub open spec fn stop_if(c: bool, s: StopStep) -> Seq<StopStep> {
    if c {
        seq![s]
    } else {
        Seq::empty()
    }
}

/// The first steps of a stop: the recorder is idle before any longer work.
pub open spec fn first_steps(f: StopFacts) -> Seq<StopStep> {
    stop_if(f.crashed, StopStep::NoticeCrash) + seq![StopStep::EndSession, StopStep::ReportIdle]
        + stop_if(f.auto_transcribe, StopStep::PostTranscribe) + stop_if(
        !f.auto_transcribe && !f.live,
        StopStep::NoticeDeferred,
    )
}

/// A transcript was to be made by now.
pub open spec fn has_transcript(f: StopFacts) -> bool {
    f.auto_transcribe || f.live
}

/// The last steps of a stop. `compressed` says that the session has a
/// compression, `produced` that the transcription after the session gave a
/// transcript.
pub open spec fn last_steps(f: StopFacts, compressed: bool, produced: bool) -> Seq<StopStep> {
    stop_if(f.diarize_auto && has_transcript(f) && f.others_wav, StopStep::Diarize) + stop_if(
        has_transcript(f) && f.overview && !compressed,
        StopStep::Compress,
    ) + stop_if(has_transcript(f) && f.overview, StopStep::Fold) + stop_if(
        has_transcript(f) && f.semantic,
        StopStep::Embed,
    ) + stop_if(has_transcript(f) && f.persist_audio && f.moments, StopStep::Analyze) + stop_if(
        !f.persist_audio && f.others_wav,
        StopStep::RemoveTemporary,
    ) + stop_if(
        !f.live && f.auto_transcribe && produced && !f.keep_audio,
        StopStep::PurgeCapture,
    )
}

/// The last steps of the stop of an integration session: its speakers are known,
/// and its audio stays.
pub open spec fn last_integration_steps(f: StopFacts, compressed: bool) -> Seq<StopStep> {
    stop_if(has_transcript(f) && f.overview && !compressed, StopStep::Compress) + stop_if(
        has_transcript(f) && f.overview,
        StopStep::Fold,
    ) + stop_if(has_transcript(f) && f.semantic, StopStep::Embed) + stop_if(
        has_transcript(f) && f.moments,
        StopStep::Analyze,
    ) + stop_if(f.voiceprints, StopStep::EnrollVoices) + seq![
        StopStep::ReportSpeakers,
        StopStep::ReportSessions,
    ]
}

fn put(v: &mut Vec<StopStep>, c: bool, s: StopStep)
    ensures
        final(v)@ == old(v)@ + stop_if(c, s),
{
    if c {
        v.push(s);
    }
}

/// The facts of a stop, from the plan, the settings and the build.
pub fn stop_facts(
    opts: &SessionOpts,
    plan: &SessionPlan,
    settings: &Settings,
    features: Features,
    models_present: bool,
    crashed: bool,
) -> (r: StopFacts)
    ensures
        r.crashed == crashed,
        r.live == opts.live,
        r.keep_audio == opts.keep_audio,
        r.persist_audio == plan.persist_audio,
        r.diarize_auto == plan.diarize_auto,
        r.others_wav == plan.others_wav,
        r.auto_transcribe == settings.auto_transcribe,
        r.overview == (settings.overview_auto && configured(*settings, features)),
        r.semantic == features.semantic,
        r.moments == (features.sentiment && models_present),
        r.voiceprints == features.voiceprints,
{
    StopFacts {
        crashed,
        live: opts.live,
        keep_audio: opts.keep_audio,
        persist_audio: plan.persist_audio,
        diarize_auto: plan.diarize_auto,
        others_wav: plan.others_wav,
        auto_transcribe: settings.auto_transcribe,
        overview: settings.overview_auto && llm_backend_configured(settings, features),
        semantic: features.semantic,
        moments: features.sentiment && models_present,
        voiceprints: features.voiceprints,
    }
}

/// The first steps of a stop.
pub fn stop_first(f: StopFacts) -> (r: Vec<StopStep>)
    ensures
        r@ == first_steps(f),
{
    let mut r: Vec<StopStep> = Vec::new();
    put(&mut r, f.crashed, StopStep::NoticeCrash);
    r.push(StopStep::EndSession);
    r.push(StopStep::ReportIdle);
    put(&mut r, f.auto_transcribe, StopStep::PostTranscribe);
    put(&mut r, !f.auto_transcribe && !f.live, StopStep::NoticeDeferred);
    r
}

/// The last steps of a stop.
pub fn stop_last(f: StopFacts, compressed: bool, produced: bool) -> (r: Vec<StopStep>)
    ensures
        r@ == last_steps(f, compressed, produced),
{
    let has = f.auto_transcribe || f.live;
    let mut r: Vec<StopStep> = Vec::new();
    put(&mut r, f.diarize_auto && has && f.others_wav, StopStep::Diarize);
    put(&mut r, has && f.overview && !compressed, StopStep::Compress);
    put(&mut r, has && f.overview, StopStep::Fold);
    put(&mut r, has && f.semantic, StopStep::Embed);
    put(&mut r, has && f.persist_audio && f.moments, StopStep::Analyze);
    put(&mut r, !f.persist_audio && f.others_wav, StopStep::RemoveTemporary);
    put(
        &mut r,
        !f.live && f.auto_transcribe && produced && !f.keep_audio,
        StopStep::PurgeCapture,
    );
    r
}

/// The last steps of the stop of an integration session.
pub fn stop_integration(f: StopFacts, compressed: bool) -> (r: Vec<StopStep>)
    ensures
        r@ == last_integration_steps(f, compressed),
{
    let has = f.auto_transcribe || f.live;
    let mut r: Vec<StopStep> = Vec::new();
    put(&mut r, has && f.overview && !compressed, StopStep::Compress);
    put(&mut r, has && f.overview, StopStep::Fold);
    put(&mut r, has && f.semantic, StopStep::Embed);
    put(&mut r, has && f.moments, StopStep::Analyze);
    put(&mut r, f.voiceprints, StopStep::EnrollVoices);
    r.push(StopStep::ReportSpeakers);
    r.push(StopStep::ReportSessions);
    r
}

/// An audio capture that was not transcribed is never removed: neither when the
/// transcription is deferred, nor when it gave nothing.
pub proof fn untranscribed_captures_are_kept(f: StopFacts, compressed: bool, produced: bool)
    requires
        !f.live,
        f.persist_audio,
        !f.auto_transcribe || !produced,
    ensures
        forall|i: int|
            0 <= i < last_steps(f, compressed, produced).len() ==> #[trigger] last_steps(
                f,
                compressed,
                produced,
            )[i] != StopStep::PurgeCapture && last_steps(f, compressed, produced)[i]
                != StopStep::RemoveTemporary,
{
}

/// Audio that the user keeps is never removed.
pub proof fn kept_audio_stays(f: StopFacts, compressed: bool, produced: bool)
    requires
        f.keep_audio,
        f.persist_audio,
    ensures
        forall|i: int|
            0 <= i < last_steps(f, compressed, produced).len() ==> #[trigger] last_steps(
                f,
                compressed,
                produced,
            )[i] != StopStep::PurgeCapture && last_steps(f, compressed, produced)[i]
                != StopStep::RemoveTemporary,
{
}

/// The place of a step in the order of a stop.
pub open spec fn stop_rank(s: StopStep) -> int {
    match s {
        StopStep::NoticeCrash => 0,
        StopStep::EndSession => 1,
        StopStep::ReportIdle => 2,
        StopStep::PostTranscribe => 3,
        StopStep::NoticeDeferred => 3,
        StopStep::Diarize => 4,
        StopStep::Compress => 5,
        StopStep::Fold => 6,
        StopStep::Embed => 7,
        StopStep::Analyze => 8,
        StopStep::RemoveTemporary => 9,
        StopStep::PurgeCapture => 10,
        StopStep::EnrollVoices => 11,
        StopStep::ReportSpeakers => 12,
        StopStep::ReportSessions => 13,
    }
}

/// The steps follow the order, without repetition.
pub open spec fn in_stop_order(s: Seq<StopStep>) -> bool {
    forall|i: int, j: int|
        #![trigger s[i], s[j]]
        0 <= i < j < s.len() ==> stop_rank(s[i]) < stop_rank(s[j])
}

/// The ranks of the steps lie in this range.
pub open spec fn ranked(s: Seq<StopStep>, lo: int, hi: int) -> bool {
    forall|i: int| 0 <= i < s.len() ==> lo <= stop_rank(#[trigger] s[i]) <= hi
}

proof fn lemma_put_ordered(s: Seq<StopStep>, c: bool, x: StopStep, lo: int, hi: int)
    requires
        in_stop_order(s),
        ranked(s, lo, hi),
        lo <= hi < stop_rank(x),
    ensures
        in_stop_order(s + stop_if(c, x)),
        ranked(s + stop_if(c, x), lo, stop_rank(x)),
{
    let t = s + stop_if(c, x);
    assert forall|i: int, j: int|
        #![trigger t[i], t[j]]
        0 <= i < j < t.len() implies stop_rank(t[i]) < stop_rank(t[j]) by {
        assert(t[i] == s[i]);
        if j < s.len() {
            assert(t[j] == s[j]);
        } else {
            assert(t[j] == x);
        }
    }
    assert forall|i: int| 0 <= i < t.len() implies lo <= stop_rank(#[trigger] t[i]) <= stop_rank(
        x,
    ) by {
        if i < s.len() {
            assert(t[i] == s[i]);
        } else {
            assert(t[i] == x);
        }
    }
}

proof fn lemma_first_ordered(f: StopFacts)
    ensures
        in_stop_order(first_steps(f)),
        ranked(first_steps(f), 0, 3),
{
    let s = first_steps(f);
    if f.crashed {
        assert(s[0] == StopStep::NoticeCrash);
        assert(s[1] == StopStep::EndSession);
        assert(s[2] == StopStep::ReportIdle);
    } else {
        assert(s[0] == StopStep::EndSession);
        assert(s[1] == StopStep::ReportIdle);
    }
}

proof fn lemma_last_ordered(f: StopFacts, compressed: bool, produced: bool)
    ensures
        in_stop_order(last_steps(f, compressed, produced)),
        ranked(last_steps(f, compressed, produced), 4, 10),
{
    let t = has_transcript(f);
    let c0 = f.diarize_auto && t && f.others_wav;
    let c1 = t && f.overview && !compressed;
    let c2 = t && f.overview;
    let c3 = t && f.semantic;
    let c4 = t && f.persist_audio && f.moments;
    let c5 = !f.persist_audio && f.others_wav;
    let c6 = !f.live && f.auto_transcribe && produced && !f.keep_audio;
    let a0 = stop_if(c0, StopStep::Diarize);
    let a1 = a0 + stop_if(c1, StopStep::Compress);
    let a2 = a1 + stop_if(c2, StopStep::Fold);
    let a3 = a2 + stop_if(c3, StopStep::Embed);
    let a4 = a3 + stop_if(c4, StopStep::Analyze);
    let a5 = a4 + stop_if(c5, StopStep::RemoveTemporary);
    lemma_put_ordered(a0, c1, StopStep::Compress, 4, 4);
    lemma_put_ordered(a1, c2, StopStep::Fold, 4, 5);
    lemma_put_ordered(a2, c3, StopStep::Embed, 4, 6);
    lemma_put_ordered(a3, c4, StopStep::Analyze, 4, 7);
    lemma_put_ordered(a4, c5, StopStep::RemoveTemporary, 4, 8);
    lemma_put_ordered(a5, c6, StopStep::PurgeCapture, 4, 9);
}

proof fn lemma_integration_ordered(f: StopFacts, compressed: bool)
    ensures
        in_stop_order(last_integration_steps(f, compressed)),
        ranked(last_integration_steps(f, compressed), 4, 13),
{
    let t = has_transcript(f);
    let c0 = t && f.overview && !compressed;
    let c1 = t && f.overview;
    let c2 = t && f.semantic;
    let c3 = t && f.moments;
    let a0 = stop_if(c0, StopStep::Compress);
    let a1 = a0 + stop_if(c1, StopStep::Fold);
    let a2 = a1 + stop_if(c2, StopStep::Embed);
    let a3 = a2 + stop_if(c3, StopStep::Analyze);
    let a4 = a3 + stop_if(f.voiceprints, StopStep::EnrollVoices);
    let a5 = a4 + stop_if(true, StopStep::ReportSpeakers);
    lemma_put_ordered(a0, c1, StopStep::Fold, 4, 5);
    lemma_put_ordered(a1, c2, StopStep::Embed, 4, 6);
    lemma_put_ordered(a2, c3, StopStep::Analyze, 4, 7);
    lemma_put_ordered(a3, f.voiceprints, StopStep::EnrollVoices, 4, 8);
    lemma_put_ordered(a4, true, StopStep::ReportSpeakers, 4, 11);
    lemma_put_ordered(a5, true, StopStep::ReportSessions, 4, 12);
    assert(a5 + stop_if(true, StopStep::ReportSessions) =~= last_integration_steps(f, compressed));
}

/// A stop goes in order: idle is reported before any longer work, the transcript
/// comes before its speakers, the speakers before the compression, and the
/// compression before the fold.
pub proof fn stop_goes_in_order(f: StopFacts, compressed: bool, produced: bool)
    ensures
        in_stop_order(first_steps(f) + last_steps(f, compressed, produced)),
        in_stop_order(first_steps(f) + last_integration_steps(f, compressed)),
{
    lemma_first_ordered(f);
    lemma_last_ordered(f, compressed, produced);
    lemma_integration_ordered(f, compressed);
    lemma_join_ordered(first_steps(f), last_steps(f, compressed, produced), 13);
    lemma_join_ordered(first_steps(f), last_integration_steps(f, compressed), 13);
}

proof fn lemma_join_ordered(s: Seq<StopStep>, t: Seq<StopStep>, hi: int)
    requires
        in_stop_order(s),
        in_stop_order(t),
        ranked(s, 0, 3),
        ranked(t, 4, hi),
    ensures
        in_stop_order(s + t),
{
    let u = s + t;
    assert forall|i: int, j: int|
        #![trigger u[i], u[j]]
        0 <= i < j < u.len() implies stop_rank(u[i]) < stop_rank(u[j]) by {
        if j < s.len() {
            assert(u[i] == s[i] && u[j] == s[j]);
        } else if i < s.len() {
            assert(u[i] == s[i] && u[j] == t[j - s.len()]);
        } else {
            assert(u[i] == t[i - s.len()] && u[j] == t[j - s.len()]);
        }
    }
}

// ---------------------------------------------------------------------------
// What a session reports
// ---------------------------------------------------------------------------

/// What can go wrong in a session.
#[derive(Debug, Clone, Copy, PartialEq, Eq, Structural)]
pub enum Trouble {
    /// The model cannot be had.
    Model,
    /// The database cannot be opened.
    Database,
    /// The microphone does not start; `mac` names the system.
    Microphone { mac: bool },
    /// The microphone test does not start; `mac` names the system.
    MicTest { mac: bool },
    /// The system audio does not start.
    SystemAudio,
    /// The transcriber does not load.
    Transcriber,
    /// A part cannot be transcribed.
    Transcribing,
}

/// Where to look when the microphone does not start.
pub open spec fn mic_hint(mac: bool) -> Seq<char> {
    if mac {
        " (check Microphone permission in System Settings → Privacy & Security)"@
    } else {
        " (check the OS microphone privacy settings and that a mic is connected)"@
    }
}

/// The report about a trouble: its text, and whether it is an error. A trouble
/// that is no error leaves the session running.
pub fn trouble_report(t: Trouble, why: &str) -> (r: (String, bool))
    ensures
        r.0@ == (match t {
            Trouble::Model => "model: "@ + why@,
            Trouble::Database => "db: "@ + why@,
            Trouble::Microphone { mac } => "microphone: "@ + why@ + mic_hint(mac),
            Trouble::MicTest { mac } => "microphone test: "@ + why@ + mic_hint(mac),
            Trouble::SystemAudio => "System audio off: "@ + why@,
            Trouble::Transcriber => "whisper: "@ + why@,
            Trouble::Transcribing => "transcribe error: "@ + why@,
        }),
        r.1 == !(t is MicTest || t is SystemAudio || t is Transcribing),
{
    let (head, hint, error) = match t {
        Trouble::Model => ("model: ", None, true),
        Trouble::Database => ("db: ", None, true),
        Trouble::Microphone { mac } => ("microphone: ", Some(mac), true),
        Trouble::MicTest { mac } => ("microphone test: ", Some(mac), false),
        Trouble::SystemAudio => ("System audio off: ", None, false),
        Trouble::Transcriber => ("whisper: ", None, true),
        Trouble::Transcribing => ("transcribe error: ", None, false),
    };
    let mut r = head.to_string();
    r.push_str(why);
    if let Some(mac) = hint {
        if mac {
            r.push_str(" (check Microphone permission in System Settings → Privacy & Security)");
        } else {
            r.push_str(" (check the OS microphone privacy settings and that a mic is connected)");
        }
    }
    (r, error)
}

/// The notice when the one application to capture is not picked.
pub fn no_app_notice(plan: &SessionPlan) -> (r: Option<&'static str>)
    ensures
        match r {
            Some(t) => plan.warn_no_app && t@
                == "no app selected — capturing the whole system mix (pick one in Settings → Recording)"@,
            None => !plan.warn_no_app,
        },
{
    if plan.warn_no_app {
        Some("no app selected — capturing the whole system mix (pick one in Settings → Recording)")
    } else {
        None
    }
}

/// The notice when a recording without live transcription begins.
pub fn capture_notice(live: bool) -> (r: Option<&'static str>)
    ensures
        match r {
            Some(t) => !live && t@
                == "Recording (capture only) — transcription will run when you stop."@,
            None => live,
        },
{
    if live {
        None
    } else {
        Some("Recording (capture only) — transcription will run when you stop.")
    }
}

impl StopStep {
    /// The notice that a step shows.
    pub fn notice(self) -> (r: Option<&'static str>)
        ensures
            match r {
                Some(t) => match self {
                    StopStep::NoticeCrash => t@
                        == "a recording worker crashed during this session — parts of the audio or transcript may be missing (details in logs/crash.log)"@,
                    StopStep::NoticeDeferred => t@
                        == "Recording saved — transcription deferred. Open the session and press Re-transcribe (or turn on 'Transcribe automatically after recording' in Settings)."@,
                    _ => false,
                },
                None => self != StopStep::NoticeCrash && self != StopStep::NoticeDeferred,
            },
    {
        match self {
            StopStep::NoticeCrash => Some(
                "a recording worker crashed during this session — parts of the audio or transcript may be missing (details in logs/crash.log)",
            ),
            StopStep::NoticeDeferred => Some(
                "Recording saved — transcription deferred. Open the session and press Re-transcribe (or turn on 'Transcribe automatically after recording' in Settings).",
            ),
            _ => None,
        }
    }
}

// ---------------------------------------------------------------------------
// Lines of a running session
// ---------------------------------------------------------------------------

/// The speaker of a finished line: the one of its track wins, then its own, then
/// the provisional one.
pub open spec fn line_speaker(track: Option<i32>, own: Option<i32>, live: Option<i32>) -> Option<
    i32,
> {
    match track {
        Some(n) => Some(n),
        None => match own {
            Some(n) => Some(n),
            None => live,
        },
    }
}

/// A finished line with its speaker.
pub fn finished_line(seg: Segment, track: Option<i32>, live: Option<i32>) -> (r: Segment)
    ensures
        r == (Segment { speaker: line_speaker(track, seg.speaker, live), ..seg }),
{
    let speaker = match track {
        Some(n) => Some(n),
        None => match seg.speaker {
            Some(n) => Some(n),
            None => live,
        },
    };
    Segment {
        id: seg.id,
        source: seg.source,
        t_start_ms: seg.t_start_ms,
        t_end_ms: seg.t_end_ms,
        text: seg.text,
        speaker,
    }
}

/// The bookmark that a line drops. `matched` is the phrase that was heard in it.
pub fn phrase_bookmark(seg: &Segment, matched: Option<String>, back_offset_ms: u64) -> (r: Option<
    (u64, String),
>)
    ensures
        r == (match matched {
            Some(p) => Some((bookmark_time(seg.t_start_ms, back_offset_ms), p)),
            None => None,
        }),
{
    match matched {
        Some(p) => Some((seg.t_start_ms.saturating_sub(back_offset_ms), p)),
        None => None,
    }
}

/// How far a bookmark reaches back, in milliseconds.
pub fn back_offset_ms(settings: &Settings) -> (r: u64)
    ensures
        r == settings.bookmark_back_offset_secs * 1000,
{
    settings.bookmark_back_offset_secs as u64 * 1000
}

// ---------------------------------------------------------------------------
// Integration sessions
// ---------------------------------------------------------------------------

/// Where the audio of an integration session comes from.
#[derive(Debug, Clone)]
pub enum Provider {
    Fake,
    Discord { token: String, user: u64, announce: bool },
}

impl Provider {
    /// What is announced in the voice channel.
    pub fn announcement(&self) -> (r: Option<&'static str>)
        ensures
            match r {
                Some(t) => self matches Provider::Discord { announce, .. } && *announce && t@
                    == "🔴 Zord is recording this voice channel — audio is captured per participant for a private, local transcript."@,
                None => !(self matches Provider::Discord { announce, .. } && *announce),
            },
    {
        match self {
            Provider::Discord { announce, .. } => if *announce {
                Some(
                    "🔴 Zord is recording this voice channel — audio is captured per participant for a private, local transcript.",
                )
            } else {
                None
            },
            Provider::Fake => None,
        }
    }
}

/// Why an integration session cannot begin.
#[derive(Debug, Clone, Copy, PartialEq, Eq, Structural)]
pub enum ProviderError {
    NoToken,
    NoUser,
}

impl ProviderError {
    /// The text of an error.
    pub fn text(self) -> (r: &'static str)
        ensures
            r@ == (match self {
                ProviderError::NoToken =>
                    "no Discord bot token — paste one in Settings → Integrations"@,
                ProviderError::NoUser =>
                    "no Discord user ID to follow (or it isn't a number) — set it in Settings → Integrations"@,
            }),
    {
        match self {
            ProviderError::NoToken =>
                "no Discord bot token — paste one in Settings → Integrations",
            ProviderError::NoUser =>
                "no Discord user ID to follow (or it isn't a number) — set it in Settings → Integrations",
        }
    }
}

/// The number that a user id spells.
pub open spec fn user_number(s: Seq<char>) -> Option<int> {
    spelled(trimmed(s), 0, u64::MAX as int)
}

/// Reads a user id.
pub fn read_user(s: &str) -> (r: Option<u64>)
    ensures
        match r {
            Some(n) => user_number(s@) == Some(n as int),
            None => user_number(s@) is None,
        },
{
    read_u64(&trim(s))
}

/// Picks where the audio comes from: the settings first, then the environment.
/// Missing credentials are an error, never a silent stand-in.
pub fn build_integration_provider(
    token: String,
    user: Option<u64>,
    announce: bool,
    force_fake: bool,
    env_token: Option<String>,
    env_user: Option<u64>,
    features: Features,
) -> (r: Result<Provider, ProviderError>)
    ensures
        ({
            let t = if token@.len() > 0 {
                Some(token)
            } else {
                env_token
            };
            let u = match user {
                Some(n) => Some(n),
                None => env_user,
            };
            if force_fake || !features.discord {
                r == Ok::<Provider, ProviderError>(Provider::Fake)
            } else if t is None || t->0@.len() == 0 {
                r == Err::<Provider, ProviderError>(ProviderError::NoToken)
            } else if u is None {
                r == Err::<Provider, ProviderError>(ProviderError::NoUser)
            } else {
                r == Ok::<Provider, ProviderError>(
                    Provider::Discord { token: t->0, user: u->0, announce },
                )
            }
        }),
{
    if force_fake || !features.discord {
        return Ok(Provider::Fake);
    }
    let t = if token.as_str().unicode_len() > 0 {
        Some(token)
    } else {
        env_token
    };
    let u = match user {
        Some(n) => Some(n),
        None => env_user,
    };
    match t {
        Some(token) => {
            if token.as_str().unicode_len() == 0 {
                return Err(ProviderError::NoToken);
            }
            match u {
                Some(user) => Ok(Provider::Discord { token, user, announce }),
                None => Err(ProviderError::NoUser),
            }
        },
        None => Err(ProviderError::NoToken),
    }
}

/// What a participant's arrival leads to.
#[derive(Debug, Clone, Copy, PartialEq, Eq, Structural)]
pub enum JoinStep {
    /// Store and report the participant's name.
    Announce(i32),
    /// Mark the participant as the user.
    TagMe(i32),
    /// Open the participant's track.
    Open(i32),
    /// Feed the participant's audio into the open track.
    Bridge(i32),
}

/// The participants whose track is open.
pub struct Roster {
    pub open: Vec<i32>,
}

/// What an arrival leads to.
pub open spec fn join_steps(open: Seq<i32>, idx: i32, is_me: bool) -> Seq<JoinStep> {
    seq![JoinStep::Announce(idx)] + (if is_me {
        seq![JoinStep::TagMe(idx)]
    } else {
        Seq::empty()
    }) + (if open.contains(idx) {
        Seq::empty()
    } else {
        seq![JoinStep::Open(idx)]
    }) + seq![JoinStep::Bridge(idx)]
}

/// The open tracks after an arrival.
pub open spec fn joined_roster(open: Seq<i32>, idx: i32) -> Seq<i32> {
    if open.contains(idx) {
        open
    } else {
        open.push(idx)
    }
}

impl Roster {
    /// Nobody has arrived.
    pub fn new() -> (r: Roster)
        ensures
            r.open@.len() == 0,
    {
        Roster { open: Vec::new() }
    }

    fn holds(&self, idx: i32) -> (r: bool)
        ensures
            r == self.open@.contains(idx),
    {
        let mut i: usize = 0;
        while i < self.open.len()
            invariant
                i <= self.open@.len(),
                forall|k: int| 0 <= k < i ==> #[trigger] self.open@[k] != idx,
            decreases self.open@.len() - i,
        {
            if self.open[i] == idx {
                return true;
            }
            i += 1;
        }
        false
    }

    /// A participant arrived, for the first time or again. Who comes back is fed
    /// into the track that is open: opening it anew would lose what it holds.
    pub fn join(&mut self, idx: i32, is_me: bool) -> (r: Vec<JoinStep>)
        ensures
            r@ == join_steps(old(self).open@, idx, is_me),
            final(self).open@ == joined_roster(old(self).open@, idx),
    {
        let mut r: Vec<JoinStep> = Vec::new();
        r.push(JoinStep::Announce(idx));
        if is_me {
            r.push(JoinStep::TagMe(idx));
        }
        if !self.holds(idx) {
            self.open.push(idx);
            r.push(JoinStep::Open(idx));
        }
        r.push(JoinStep::Bridge(idx));
        r
    }
}

/// The open tracks after a row of arrivals.
pub open spec fn roster_after(open: Seq<i32>, joins: Seq<i32>) -> Seq<i32>
    decreases joins.len(),
{
    if joins.len() == 0 {
        open
    } else {
        joined_roster(roster_after(open, joins.drop_last()), joins.last())
    }
}

proof fn lemma_roster(open: Seq<i32>, joins: Seq<i32>, idx: i32)
    ensures
        roster_after(open, joins).contains(idx) <==> open.contains(idx) || joins.contains(idx),
    decreases joins.len(),
{
    if joins.len() > 0 {
        let h = joins.drop_last();
        lemma_roster(open, h, idx);
        let p = roster_after(open, h);
        let r = roster_after(open, joins);
        if p.contains(idx) {
            let k = choose|k: int| 0 <= k < p.len() && p[k] == idx;
            assert(r[k] == idx);
        }
        if joins.last() == idx {
            if !p.contains(idx) {
                assert(r[p.len() as int] == idx);
            }
            assert(joins[joins.len() - 1] == idx);
        }
        if r.contains(idx) && !p.contains(idx) {
            let k = choose|k: int| 0 <= k < r.len() && r[k] == idx;
            assert(k == p.len());
            assert(joins[joins.len() - 1] == idx);
        }
        if joins.contains(idx) {
            let k = choose|k: int| 0 <= k < joins.len() && joins[k] == idx;
            if k < h.len() {
                assert(h[k] == idx);
            }
        }
        if h.contains(idx) {
            let k = choose|k: int| 0 <= k < h.len() && h[k] == idx;
            assert(joins[k] == idx);
        }
    }
}

/// A participant's track is opened once in a session, at the first arrival. The
/// audio of every arrival is fed into it, last of all.
pub proof fn tracks_open_once(joins: Seq<i32>, idx: i32, is_me: bool)
    ensures
        !joins.contains(idx) <==> join_steps(
            roster_after(Seq::empty(), joins),
            idx,
            is_me,
        ).contains(JoinStep::Open(idx)),
        join_steps(roster_after(Seq::empty(), joins), idx, is_me).last() == JoinStep::Bridge(idx),
{
    lemma_roster(Seq::empty(), joins, idx);
    let steps = join_steps(roster_after(Seq::empty(), joins), idx, is_me);
    if !joins.contains(idx) {
        assert(steps[steps.len() - 2] == JoinStep::Open(idx));
    }
}

/// How an integration session ended.
#[derive(Debug, Clone)]
pub enum IntegrationEnd {
    /// The platform ended it; `error` says that something went wrong.
    Platform { reason: String, error: bool },
    /// The connection broke.
    Disconnected,
    /// The user stopped it.
    Stopped,
    /// The integration failed, for this reason.
    Failed(String),
}

/// The notice about an end; a normal end has none.
pub fn end_notice(end: &IntegrationEnd) -> (r: Option<String>)
    ensures
        match *end {
            IntegrationEnd::Platform { reason, error } => if error {
                r is Some && r->0@ == "Discord: "@ + reason@
            } else {
                r is None
            },
            IntegrationEnd::Disconnected => r is Some && r->0@
                == "Discord: the session ended unexpectedly — check Settings → Integrations and try again."@,
            IntegrationEnd::Stopped => r is None,
            IntegrationEnd::Failed(e) => r is Some && r->0@ == "integration error: "@ + e@,
        },
{
    match end {
        IntegrationEnd::Platform { reason, error } => {
            if *error {
                let mut r = "Discord: ".to_string();
                r.push_str(reason);
                Some(r)
            } else {
                None
            }
        },
        IntegrationEnd::Disconnected => Some(
            "Discord: the session ended unexpectedly — check Settings → Integrations and try again.".to_string(),
        ),
        IntegrationEnd::Stopped => None,
        IntegrationEnd::Failed(e) => {
            let mut r = "integration error: ".to_string();
            r.push_str(e);
            Some(r)
        },
    }
}

// ---------------------------------------------------------------------------
// What a recording does
// ---------------------------------------------------------------------------

/// A channel that is recorded is written whenever its audio stays, which it does if the
/// user keeps audio or nothing is transcribed while recording. The system audio is also
/// written where the speakers are told apart afterwards. A channel that is not recorded
/// is never written.
pub proof fn recorded_channels_are_written(
    keep_audio: bool,
    live: bool,
    record_mic: bool,
    record_system: bool,
    s: Settings,
    f: Features,
)
    ensures
        ({
            let p = planned(keep_audio, live, record_mic, record_system, s, f);
            &&& p.persist_audio <==> keep_audio || !live
            &&& keep_audio && record_mic ==> p.me_wav
            &&& keep_audio && record_system ==> p.others_wav
            &&& p.me_wav <==> record_mic && (keep_audio || !live)
            &&& p.others_wav <==> record_system && (keep_audio || !live || (f.diarization
                && s.diarize_auto))
            &&& p.diarize_auto <==> record_system && f.diarization && s.diarize_auto
            &&& p.me_wav || p.others_wav ==> p.writes_audio
            &&& p.writes_audio ==> p.persist_audio || p.others_wav
        }),
{
}

/// One application is captured exactly if the system audio is recorded in the mode for
/// one application and one is picked; where none is picked, that is reported. Keeping
/// audio or transcribing live does not change what is captured.
pub proof fn the_picked_app_is_captured(
    keep_audio: bool,
    live: bool,
    record_mic: bool,
    record_system: bool,
    s: Settings,
    f: Features,
)
    ensures
        ({
            let p = planned(keep_audio, live, record_mic, record_system, s, f);
            &&& p.app_target matches Some(id) ==> id == s.capture_app_id && id@.len() > 0
            &&& p.app_target is Some || p.warn_no_app <==> record_system && s.capture_mode@ == "app"@
            &&& !(p.app_target is Some && p.warn_no_app)
            &&& p.warn_no_app ==> s.capture_app_id@.len() == 0
        }),
{
}

/// A start runs one recording, with what was asked for: nothing but the sources can
/// change, and they only where none was asked for. Other commands run none.
pub proof fn starts_run_what_was_asked(cmd: RecorderCmd, testing: bool, forced: bool)
    ensures
        ({
            let r = control_of(cmd, testing, forced);
            match cmd {
                RecorderCmd::Start {
                    model,
                    keep_audio,
                    input_device,
                    audio_dir,
                    record_mic,
                    record_system,
                    live,
                    integration,
                } => {
                    let o = match r.last() {
                        ControlStep::RunSession(o) => o,
                        ControlStep::RunIntegration(o) => o,
                        _ => arbitrary(),
                    };
                    &&& r.len() == if testing {
                        2int
                    } else {
                        1
                    }
                    &&& integration || forced <==> r.last() is RunIntegration
                    &&& !integration && !forced <==> r.last() is RunSession
                    &&& o.model == model && o.keep_audio == keep_audio && o.input_device
                        == input_device && o.audio_dir == audio_dir && o.live == live
                    &&& record_mic || record_system ==> o.record_mic == record_mic
                        && o.record_system == record_system
                    &&& !record_mic && !record_system ==> o.record_mic && o.record_system
                },
                RecorderCmd::MicTestStart { device } => r.last() == (ControlStep::StartMicTest {
                    device,
                }),
                RecorderCmd::Shutdown => r == seq![ControlStep::Quit],
                RecorderCmd::MicTestStop => r.len() > 0 <==> testing,
                _ => r.len() == 0,
            }
        }),
        testing && (cmd is Start || cmd is MicTestStart || cmd is MicTestStop) ==> control_of(
            cmd,
            testing,
            forced,
        )[0] == ControlStep::StopMicTest,
        !testing ==> !control_of(cmd, testing, forced).contains(ControlStep::StopMicTest),
{
}

/// A bookmark lies as far back as the setting says, but not before the session began.
pub proof fn bookmarks_reach_back(elapsed: u64, back: u64)
    ensures
        elapsed >= back ==> bookmark_time(elapsed, back) + back == elapsed,
        elapsed < back ==> bookmark_time(elapsed, back) == 0,
{
}

/// A session ends by a stop, a shutdown or a closed channel, and by nothing else; only a
/// shutdown ends the recorder with it. Muting does what it says, and everything else but
/// a bookmark is ignored.
pub proof fn sessions_end_when_told(cmd: Option<RecorderCmd>, elapsed: u64, back: u64)
    ensures
        waited(cmd, elapsed, back) is End <==> cmd is None || cmd == Some(RecorderCmd::Stop) || cmd
            == Some(RecorderCmd::Shutdown),
        waited(cmd, elapsed, back) == (WaitStep::End { shutdown: true }) <==> cmd == Some(
            RecorderCmd::Shutdown,
        ),
        waited(cmd, elapsed, back) matches WaitStep::MuteMic(m) ==> cmd == Some(
            RecorderCmd::SetMicMuted(m),
        ),
        cmd matches Some(RecorderCmd::SetMicMuted(m)) ==> waited(cmd, elapsed, back) is MuteMic,
        waited(cmd, elapsed, back) matches WaitStep::MuteSystem(m) ==> cmd == Some(
            RecorderCmd::SetSystemMuted(m),
        ),
        cmd matches Some(RecorderCmd::SetSystemMuted(m)) ==> waited(
            cmd,
            elapsed,
            back,
        ) is MuteSystem,
        waited(cmd, elapsed, back) is Bookmark <==> cmd == Some(RecorderCmd::DropBookmark),
        cmd == Some(RecorderCmd::DropBookmark) && elapsed >= back ==> waited(cmd, elapsed, back)
            == WaitStep::Bookmark((elapsed - back) as u64),
{
}

/// The end of a recording is stored and idle reported always; a crash is reported; the
/// audio is transcribed if that is set, and otherwise a recording that has no transcript is
/// reported as deferred.
pub proof fn stops_do_what_is_due(f: StopFacts)
    ensures
        ({
            let a = first_steps(f);
            &&& a.contains(StopStep::EndSession) && a.contains(StopStep::ReportIdle)
            &&& a.contains(StopStep::NoticeCrash) <==> f.crashed
            &&& a.contains(StopStep::PostTranscribe) <==> f.auto_transcribe
            &&& a.contains(StopStep::NoticeDeferred) <==> !f.auto_transcribe && !f.live
        }),
{
    broadcast use vstd::seq_lib::lemma_seq_concat_contains_all_elements;

    lemma_stop_if_has();
    let e = StopStep::EndSession;
    let r = StopStep::ReportIdle;
    assert(seq![e, r][0] == e && seq![e, r][1] == r);
}

/// After the transcript each thing is done exactly when it is due, and nothing is made
/// from a transcript that is not there. A capture is removed where it was not to be kept.
pub proof fn later_steps_do_what_is_due(f: StopFacts, compressed: bool, produced: bool)
    ensures
        ({
            let b = last_steps(f, compressed, produced);
            let t = f.auto_transcribe || f.live;
            &&& b.contains(StopStep::Diarize) <==> t && f.diarize_auto && f.others_wav
            &&& b.contains(StopStep::Compress) <==> t && f.overview && !compressed
            &&& b.contains(StopStep::Fold) <==> t && f.overview
            &&& b.contains(StopStep::Embed) <==> t && f.semantic
            &&& b.contains(StopStep::Analyze) <==> t && f.moments && f.persist_audio
            &&& b.contains(StopStep::RemoveTemporary) <==> f.others_wav && !f.persist_audio
            &&& b.contains(StopStep::PurgeCapture) <==> !f.live && !f.keep_audio
                && f.auto_transcribe && produced
        }),
{
    broadcast use vstd::seq_lib::lemma_seq_concat_contains_all_elements;

    lemma_stop_if_has();
}

proof fn lemma_stop_if_has()
    ensures
        forall|c: bool, x: StopStep, y: StopStep| #[trigger]
            stop_if(c, x).contains(y) <==> c && x == y,
{
    assert forall|c: bool, x: StopStep, y: StopStep| #[trigger] stop_if(c, x).contains(y) <==> c && x
        == y by {
        if c {
            assert(seq![x][0] == x);
        }
    }
}

/// The stop of an integration session does what any stop does with the transcript, but
/// tells no speakers apart and removes no audio. It learns voices where the build can,
/// and reports the names and the sessions in the end.
pub proof fn integration_stops_do_what_is_due(f: StopFacts, compressed: bool)
    ensures
        ({
            let b = last_integration_steps(f, compressed);
            let t = f.auto_transcribe || f.live;
            &&& b.contains(StopStep::Compress) <==> t && f.overview && !compressed
            &&& b.contains(StopStep::Fold) <==> t && f.overview
            &&& b.contains(StopStep::Embed) <==> t && f.semantic
            &&& b.contains(StopStep::Analyze) <==> t && f.moments
            &&& b.contains(StopStep::EnrollVoices) <==> f.voiceprints
            &&& !b.contains(StopStep::Diarize) && !b.contains(StopStep::RemoveTemporary)
                && !b.contains(StopStep::PurgeCapture)
            &&& b.len() >= 2 && b[b.len() - 2] == StopStep::ReportSpeakers && b.last()
                == StopStep::ReportSessions
        }),
{
    broadcast use vstd::seq_lib::lemma_seq_concat_contains_all_elements;

    lemma_stop_if_has();
    let x = StopStep::ReportSpeakers;
    let y = StopStep::ReportSessions;
    assert(seq![x, y][0] == x && seq![x, y][1] == y);
}

/// The platform knows who speaks: its speaker is never overruled. A line keeps its own
/// speaker before a provisional one, and is without one only if nobody named any.
pub proof fn known_speakers_win(track: Option<i32>, own: Option<i32>, live: Option<i32>)
    ensures
        track is Some ==> line_speaker(track, own, live) == track,
        track is None && own is Some ==> line_speaker(track, own, live) == own,
        track is None && own is None ==> line_speaker(track, own, live) == live,
{
}

/// An arrival is announced first. The user, and nobody else, is marked; nothing is done
/// for anybody but who arrived. A track that is open stays open.
pub proof fn arrivals_are_announced(open: Seq<i32>, idx: i32, is_me: bool)
    ensures
        join_steps(open, idx, is_me)[0] == JoinStep::Announce(idx),
        join_steps(open, idx, is_me).contains(JoinStep::TagMe(idx)) <==> is_me,
        forall|i: int|
            0 <= i < join_steps(open, idx, is_me).len() ==> {
                ||| (#[trigger] join_steps(open, idx, is_me)[i]) == JoinStep::Announce(idx)
                ||| join_steps(open, idx, is_me)[i] == JoinStep::TagMe(idx)
                ||| join_steps(open, idx, is_me)[i] == JoinStep::Open(idx)
                ||| join_steps(open, idx, is_me)[i] == JoinStep::Bridge(idx)
            },
        forall|n: int| 0 <= n < open.len() ==> #[trigger] joined_roster(open, idx)[n] == open[n],
        joined_roster(open, idx).contains(idx),
{
    let s = join_steps(open, idx, is_me);
    if is_me {
        assert(s[1] == JoinStep::TagMe(idx));
    }
    let r = joined_roster(open, idx);
    if !open.contains(idx) {
        assert(r[open.len() as int] == idx);
    }
}

/// A user's number is read as it is written, whatever white space surrounds it.
pub proof fn user_numbers_are_read(n: u64, s: Seq<char>)
    ensures
        trimmed(s) == crate::number::decimal(n as nat) ==> user_number(s) == Some(n as int),
        user_number(s) matches Some(x) ==> 0 <= x <= u64::MAX,
        trimmed(s).len() == 0 ==> user_number(s) is None,
{
    crate::number::written_number_reads_back(n as int, 0, u64::MAX as int);
    crate::number::only_numbers_are_read(trimmed(s), 0, u64::MAX as int);
}

/// Both channels are recorded where none was asked for, and otherwise the ones asked for.
pub proof fn something_is_recorded(mic: bool, system: bool)
    ensures
        guarded(mic, system).0 || guarded(mic, system).1,
        mic || system ==> guarded(mic, system) == (mic, system),
        guarded(false, false) == (true, true),
{
}

} // verus!
