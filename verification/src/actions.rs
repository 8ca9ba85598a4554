//! What the user does in the window, and what the clock does to it.

use std::collections::HashMap;

use crate::find::find_hits;
#[allow(unused_imports)]
use crate::find::hits_in;
use crate::labels::capture_sources;
#[allow(unused_imports)]
use crate::labels::captured;
use crate::model::{
    AudioFiles, ChatScope, DbCmd, EmbedCmd, Event, Features, ModelCmd, PlayCmd, RecorderCmd,
    Source, Status, SummCmd,
};
#[allow(unused_imports)]
use crate::model::AudioFilesView;
#[allow(unused_imports)]
use crate::text::{blank, copy_opt, is_blank, same, trim, trimmed};
use crate::ui::{drop_job, ChatPane, Outgoing, Screen, TimelinePane, UiState};
#[allow(unused_imports)]
use crate::ui::{
    off_board, reduce, replies, turns, BoardView, ChatPaneView, JobView, RecorderView,
    SearchPaneView, SessionPaneView, SetupPaneView, ShelfView, TimelinePaneView, UiView,
};
use vstd::prelude::*;

verus! {

// ---------------------------------------------------------------------------
// Bursts of events
// ---------------------------------------------------------------------------

/// The newest level of a channel in a burst of events.
pub open spec fn newest_level(burst: Seq<(Event, u64)>, source: Source) -> Option<u32>
    decreases burst.len(),
{
    if burst.len() == 0 {
        None
    } else {
        match burst.last().0 {
            Event::Level { source: s, level } => if s == source {
                Some(level)
            } else {
                newest_level(burst.drop_last(), source)
            },
            _ => newest_level(burst.drop_last(), source),
        }
    }
}

/// The state after the events of a burst, levels aside.
pub open spec fn after_burst(s: UiView, burst: Seq<(Event, u64)>) -> UiView
    decreases burst.len(),
{
    if burst.len() == 0 {
        s
    } else {
        reduce(after_burst(s, burst.drop_last()), burst.last().0, burst.last().1)
    }
}

/// What a burst makes the window send, in order.
pub open spec fn burst_replies(s: UiView, burst: Seq<(Event, u64)>) -> Seq<Outgoing>
    decreases burst.len(),
{
    if burst.len() == 0 {
        Seq::empty()
    } else {
        burst_replies(s, burst.drop_last()) + replies(
            after_burst(s, burst.drop_last()),
            burst.last().0,
        )
    }
}

/// The state with new levels, where there are any.
pub open spec fn with_levels(s: UiView, me: Option<u32>, others: Option<u32>) -> UiView {
    UiView {
        rec: RecorderView {
            me_level: match me {
                Some(l) => l,
                None => s.rec.me_level,
            },
            others_level: match others {
                Some(l) => l,
                None => s.rec.others_level,
            },
            ..s.rec
        },
        ..s
    }
}

/// The burst without its level events.
pub open spec fn without_levels(burst: Seq<(Event, u64)>) -> Seq<(Event, u64)>
    decreases burst.len(),
{
    if burst.len() == 0 {
        Seq::empty()
    } else if burst.last().0 is Level {
        without_levels(burst.drop_last())
    } else {
        without_levels(burst.drop_last()).push(burst.last())
    }
}

/// Levels never get in the way: a burst acts on everything but the meters as if
/// its level events had not been there.
pub proof fn levels_do_not_interfere(s: UiView, burst: Seq<(Event, u64)>)
    ensures
        after_burst(s, burst) == after_burst(s, without_levels(burst)),
        burst_replies(s, burst) == burst_replies(s, without_levels(burst)),
    decreases burst.len(),
{
    if burst.len() > 0 {
        levels_do_not_interfere(s, burst.drop_last());
        let w = without_levels(burst.drop_last());
        if burst.last().0 is Level {
            assert(replies(after_burst(s, burst.drop_last()), burst.last().0) =~= Seq::empty());
            assert(burst_replies(s, burst) =~= burst_replies(s, burst.drop_last()));
        } else {
            assert(without_levels(burst).drop_last() =~= w);
            assert(without_levels(burst).last() == burst.last());
        }
    }
}

/// Whether a recording is running or about to.
pub open spec fn is_recording(st: Status) -> bool {
    st is Recording || st is PreparingModel || st is Downloading
}

/// Whether a recording is running or about to.
pub fn recording(st: &Status) -> (r: bool)
    ensures
        r == is_recording(*st),
{
    match st {
        Status::Recording | Status::PreparingModel | Status::Downloading(_) => true,
        _ => false,
    }
}

// ---------------------------------------------------------------------------
// Parts of larger changes
// ---------------------------------------------------------------------------

impl ChatPaneView {
    /// No conversation.
    pub open spec fn none() -> ChatPaneView {
        ChatPaneView {
            chat: Seq::empty(),
            chat_input: Seq::empty(),
            chat_busy: false,
            chat_scope: None,
        }
    }
}

impl ChatPane {
    /// Clears the conversation.
    pub fn reset(&mut self)
        ensures
            final(self)@ == ChatPaneView::none(),
    {
        self.chat = Vec::new();
        self.chat_input = String::new();
        self.chat_busy = false;
        self.chat_scope = None;
        assert(turns(self.chat@) =~= Seq::empty());
    }
}

impl TimelinePaneView {
    /// The pane with the timeline closed.
    pub open spec fn closed(self) -> TimelinePaneView {
        TimelinePaneView {
            timeline_open: false,
            timeline_lanes: Seq::empty(),
            timeline_pos: None,
            ..self
        }
    }

    /// The pane with the timeline and the analytics card closed.
    pub open spec fn emptied(self) -> TimelinePaneView {
        TimelinePaneView { stats_open: false, session_stats: None, ..self.closed() }
    }

    /// What closing the timeline sends: an open one stops its playback.
    pub open spec fn closing(self) -> Seq<Outgoing> {
        if self.timeline_open {
            seq![Outgoing::Play(PlayCmd::Stop)]
        } else {
            Seq::empty()
        }
    }
}

impl TimelinePane {
    /// Closes the timeline; says whether playback has to stop.
    pub fn close(&mut self) -> (out: Vec<Outgoing>)
        ensures
            final(self)@ == old(self)@.closed(),
            out@ == old(self)@.closing(),
    {
        let mut out: Vec<Outgoing> = Vec::new();
        if self.timeline_open {
            self.timeline_open = false;
            out.push(Outgoing::Play(PlayCmd::Stop));
        }
        self.timeline_lanes = Vec::new();
        self.timeline_pos = None;
        out
    }

    fn empty(&mut self) -> (out: Vec<Outgoing>)
        ensures
            final(self)@ == old(self)@.emptied(),
            out@ == old(self)@.closing(),
    {
        let out = self.close();
        self.stats_open = false;
        self.session_stats = None;
        out
    }
}

impl SessionPaneView {
    /// The pane before a new recording.
    pub open spec fn for_recording(self) -> SessionPaneView {
        SessionPaneView {
            segments: Seq::empty(),
            summary: None,
            compressed: None,
            summarizing: false,
            compressing: false,
            diarizing: false,
            retranscribing: false,
            audio_files: AudioFilesView::none(),
            me_speaker: None,
            speaker_names: Map::empty(),
            ..self
        }
    }

    /// The pane before a saved session is loaded.
    pub open spec fn for_session(self) -> SessionPaneView {
        SessionPaneView {
            last_export: None,
            summary: None,
            compressed: None,
            summarizing: false,
            compressing: false,
            diarizing: false,
            retranscribing: false,
            diar_speakers: Seq::empty(),
            audio_files: AudioFilesView::none(),
            me_speaker: None,
            ..self
        }
    }

    /// The pane before a search hit is loaded.
    pub open spec fn for_hit(self) -> SessionPaneView {
        SessionPaneView {
            last_export: None,
            summary: None,
            compressed: None,
            summarizing: false,
            compressing: false,
            diarizing: false,
            ..self
        }
    }
}

impl crate::ui::SessionPane {
    fn prepare_recording(&mut self)
        ensures
            final(self)@ == old(self)@.for_recording(),
    {
        self.segments = Vec::new();
        self.summary = None;
        self.compressed = None;
        self.summarizing = false;
        self.compressing = false;
        self.diarizing = false;
        self.retranscribing = false;
        self.audio_files = AudioFiles::default();
        self.me_speaker = None;
        self.speaker_names = HashMap::new();
    }

    fn prepare_session(&mut self)
        ensures
            final(self)@ == old(self)@.for_session(),
    {
        self.last_export = None;
        self.summary = None;
        self.compressed = None;
        self.summarizing = false;
        self.compressing = false;
        self.diarizing = false;
        self.retranscribing = false;
        self.diar_speakers = String::new();
        self.audio_files = AudioFiles::default();
        self.me_speaker = None;
    }

    fn prepare_hit(&mut self)
        ensures
            final(self)@ == old(self)@.for_hit(),
    {
        self.last_export = None;
        self.summary = None;
        self.compressed = None;
        self.summarizing = false;
        self.compressing = false;
        self.diarizing = false;
    }

    fn clear_flag(&mut self, kind: &String)
        ensures
            final(self)@ == flag_cleared(old(self)@, kind@),
    {
        if same(kind, "summarize") {
            self.summarizing = false;
        } else if same(kind, "compress") {
            self.compressing = false;
        } else if same(kind, "diarize") {
            self.diarizing = false;
            self.diarize_est_secs = None;
        } else if same(kind, "retranscribe") {
            self.retranscribing = false;
        }
    }
}

/// The pane with the busy mark of a job kind taken away.
pub open spec fn flag_cleared(p: SessionPaneView, kind: Seq<char>) -> SessionPaneView {
    if kind == "summarize"@ {
        SessionPaneView { summarizing: false, ..p }
    } else if kind == "compress"@ {
        SessionPaneView { compressing: false, ..p }
    } else if kind == "diarize"@ {
        SessionPaneView { diarizing: false, diarize_est_secs: None, ..p }
    } else if kind == "retranscribe"@ {
        SessionPaneView { retranscribing: false, ..p }
    } else {
        p
    }
}

/// The kind of the first job with this id.
pub open spec fn kind_on_board(jobs: Seq<JobView>, id: Seq<char>) -> Option<Seq<char>>
    decreases jobs.len(),
{
    if jobs.len() == 0 {
        None
    } else if jobs[0].id@ == id {
        Some(jobs[0].kind@)
    } else {
        kind_on_board(jobs.skip(1), id)
    }
}

fn kind_of(jobs: &Vec<JobView>, id: &String) -> (r: Option<String>)
    ensures
        match r {
            Some(k) => kind_on_board(jobs@, id@) == Some(k@),
            None => kind_on_board(jobs@, id@) is None,
        },
{
    let mut i: usize = 0;
    assert(jobs@.skip(0) =~= jobs@);
    while i < jobs.len()
        invariant
            i <= jobs@.len(),
            kind_on_board(jobs@, id@) == kind_on_board(jobs@.skip(i as int), id@),
        decreases jobs@.len() - i,
    {
        assert(jobs@.skip(i as int).skip(1) =~= jobs@.skip(i + 1));
        if jobs[i].id == *id {
            return Some(jobs[i].kind.clone());
        }
        i += 1;
    }
    None
}

// ---------------------------------------------------------------------------
// Actions
// ---------------------------------------------------------------------------

/// The command that starts a recording with these settings.
pub open spec fn start_command(
    s: crate::settings::Settings,
    integration: bool,
    model: String,
    audio_dir: String,
) -> RecorderCmd {
    RecorderCmd::Start {
        model,
        keep_audio: s.keep_audio,
        input_device: s.input_device,
        audio_dir,
        record_mic: captured(s.capture_mode@).0,
        record_system: captured(s.capture_mode@).1,
        live: s.live_transcription,
        integration,
    }
}

impl UiState {
    /// Shows new meter levels.
    pub fn set_levels(&mut self, me: Option<u32>, others: Option<u32>)
        ensures
            final(self)@ == with_levels(old(self)@, me, others),
    {
        if let Some(l) = me {
            self.rec.me_level = l;
        }
        if let Some(l) = others {
            self.rec.others_level = l;
        }
    }

    /// Applies everything that is queued, each event with the time of its
    /// application. Other events go in order; of the levels only the newest per
    /// channel is shown.
    pub fn apply_burst(&mut self, burst: Vec<(Event, u64)>) -> (out: Vec<Outgoing>)
        ensures
            final(self)@ == with_levels(
                after_burst(old(self)@, burst@),
                newest_level(burst@, Source::Me),
                newest_level(burst@, Source::Others),
            ),
            out@ == burst_replies(old(self)@, burst@),
    {
        let ghost s0 = self@;
        let ghost all = burst@;
        let mut rest = burst;
        let mut queue: Vec<(Event, u64)> = Vec::new();
        while rest.len() > 0
            invariant
                self@ == s0,
                queue@.len() + rest@.len() == all.len(),
                rest@ == all.take(rest@.len() as int),
                forall|i: int|
                    0 <= i < queue@.len() ==> #[trigger] queue@[i] == all[all.len() - 1 - i],
            decreases rest@.len(),
        {
            let x = rest.pop().unwrap();
            queue.push(x);
        }
        let mut out: Vec<Outgoing> = Vec::new();
        let mut me: Option<u32> = None;
        let mut others: Option<u32> = None;
        let ghost mut done: int = 0;
        assert(all.take(0) =~= Seq::empty());
        while queue.len() > 0
            invariant
                0 <= done <= all.len(),
                done + queue@.len() == all.len(),
                forall|i: int|
                    0 <= i < queue@.len() ==> #[trigger] queue@[i] == all[all.len() - 1 - i],
                self@ == after_burst(s0, all.take(done)),
                out@ == burst_replies(s0, all.take(done)),
                me == newest_level(all.take(done), Source::Me),
                others == newest_level(all.take(done), Source::Others),
            decreases queue@.len(),
        {
            assert(queue@[queue@.len() - 1] == all[done]);
            let (ev, now) = queue.pop().unwrap();
            proof {
                assert(all.take(done + 1).drop_last() =~= all.take(done));
                assert(all.take(done + 1).last() == all[done]);
                done = done + 1;
            }
            if let Event::Level { source, level } = ev {
                match source {
                    Source::Me => {
                        me = Some(level);
                    },
                    Source::Others => {
                        others = Some(level);
                    },
                }
                assert(out@ =~= burst_replies(s0, all.take(done)));
            } else {
                let mut more = self.apply(ev, now);
                out.append(&mut more);
            }
        }
        assert(all.take(done) =~= all);
        self.set_levels(me, others);
        out
    }

    /// One second passed on the recording timer.
    pub fn tick_recording(&mut self)
        requires
            old(self).rec.status is Recording ==> old(self).rec.rec_secs < u64::MAX,
        ensures
            final(self)@ == (UiView {
                rec: RecorderView {
                    rec_secs: if old(self).rec.status is Recording {
                        (old(self).rec.rec_secs + 1) as u64
                    } else {
                        0
                    },
                    ..old(self)@.rec
                },
                ..old(self)@
            }),
    {
        let running = match &self.rec.status {
            Status::Recording => true,
            _ => false,
        };
        if running {
            self.rec.rec_secs = self.rec.rec_secs + 1;
        } else if self.rec.rec_secs != 0 {
            self.rec.rec_secs = 0;
        }
    }

    /// One second passed on the jobs board: timers move while jobs run, and an
    /// open board with nothing on it closes.
    pub fn tick_jobs(&mut self)
        ensures
            final(self)@ == (UiView {
                board: BoardView {
                    job_tick: if old(self).board.jobs@.len() > 0 {
                        if old(self).board.job_tick == u64::MAX {
                            0
                        } else {
                            (old(self).board.job_tick + 1) as u64
                        }
                    } else {
                        old(self).board.job_tick
                    },
                    show_jobs: old(self).board.jobs@.len() > 0 && old(self).board.show_jobs,
                    ..old(self)@.board
                },
                ..old(self)@
            }),
    {
        if self.board.jobs.len() > 0 {
            self.board.job_tick = if self.board.job_tick == u64::MAX {
                0
            } else {
                self.board.job_tick + 1
            };
        } else if self.board.show_jobs {
            self.board.show_jobs = false;
        }
    }

    /// A notice has been on screen long enough; a newer one stays.
    pub fn expire_notice(&mut self, text: &str)
        ensures
            final(self)@ == (UiView {
                notice: if old(self)@.notice == Some(text@) {
                    None
                } else {
                    old(self)@.notice
                },
                ..old(self)@
            }),
    {
        let gone = match &self.notice {
            Some(n) => same(n, text),
            None => false,
        };
        if gone {
            self.notice = None;
        }
    }

    /// Takes the line to scroll to, if one waits, and highlights it.
    pub fn take_scroll_target(&mut self) -> (r: Option<i64>)
        ensures
            r == old(self).seek.scroll_to_seg,
            final(self)@ == (UiView {
                seek: SearchPaneView {
                    scroll_to_seg: None,
                    highlight_seg: match old(self).seek.scroll_to_seg {
                        Some(id) => Some(id),
                        None => old(self).seek.highlight_seg,
                    },
                    ..old(self)@.seek
                },
                ..old(self)@
            }),
    {
        let target = self.seek.scroll_to_seg;
        if let Some(id) = target {
            self.seek.highlight_seg = Some(id);
            self.seek.scroll_to_seg = None;
        }
        target
    }

    /// A highlight has been on screen long enough; a newer one stays.
    pub fn expire_highlight(&mut self, id: i64)
        ensures
            final(self)@ == (UiView {
                seek: SearchPaneView {
                    highlight_seg: if old(self).seek.highlight_seg == Some(id) {
                        None
                    } else {
                        old(self).seek.highlight_seg
                    },
                    ..old(self)@.seek
                },
                ..old(self)@
            }),
    {
        let gone = match self.seek.highlight_seg {
            Some(x) => x == id,
            None => false,
        };
        if gone {
            self.seek.highlight_seg = None;
        }
    }

    /// Cancels a job: asks the workers, clears the busy mark of its kind at once
    /// and takes it off the board.
    pub fn cancel_job(&mut self, id: String) -> (out: Vec<Outgoing>)
        ensures
            out@ == seq![Outgoing::CancelJob(id)],
            final(self)@ == (UiView {
                pane: match kind_on_board(old(self).board.jobs@, id@) {
                    Some(k) => flag_cleared(old(self)@.pane, k),
                    None => old(self)@.pane,
                },
                board: BoardView {
                    jobs: off_board(old(self).board.jobs@, id@),
                    ..old(self)@.board
                },
                ..old(self)@
            }),
    {
        if let Some(kind) = kind_of(&self.board.jobs, &id) {
            self.pane.clear_flag(&kind);
        }
        drop_job(&mut self.board.jobs, &id);
        let mut out: Vec<Outgoing> = Vec::new();
        out.push(Outgoing::CancelJob(id));
        out
    }

    /// The record button: stops a running recording, or clears the window and
    /// starts one.
    pub fn record(&mut self, integration: bool, model: String, audio_dir: String) -> (out: Vec<
        Outgoing,
    >)
        ensures
            is_recording(old(self).rec.status) ==> final(self)@ == old(self)@ && out@ == seq![
                Outgoing::Rec(RecorderCmd::Stop),
                Outgoing::Db(DbCmd::ListSessions),
            ],
            !is_recording(old(self).rec.status) ==> {
                &&& out@ == seq![
                    Outgoing::Play(PlayCmd::Stop),
                    Outgoing::Rec(
                        start_command(old(self).setup.settings, integration, model, audio_dir),
                    ),
                ]
                &&& final(self)@ == (UiView {
                    notice: None,
                    screen: Screen::Live,
                    rec: RecorderView {
                        live_segments: Seq::empty(),
                        mic_muted: false,
                        sys_muted: false,
                        recording_discord: integration,
                        ..old(self)@.rec
                    },
                    pane: old(self)@.pane.for_recording(),
                    talk: ChatPaneView::none(),
                    ..old(self)@
                })
            },
    {
        let mut out: Vec<Outgoing> = Vec::new();
        if recording(&self.rec.status) {
            out.push(Outgoing::Rec(RecorderCmd::Stop));
            out.push(Outgoing::Db(DbCmd::ListSessions));
            return out;
        }
        self.pane.prepare_recording();
        self.talk.reset();
        self.rec.live_segments = Vec::new();
        self.rec.mic_muted = false;
        self.rec.sys_muted = false;
        self.rec.recording_discord = integration;
        self.notice = None;
        self.screen = Screen::Live;
        let (record_mic, record_system) = capture_sources(&self.setup.settings.capture_mode);
        out.push(Outgoing::Play(PlayCmd::Stop));
        out.push(
            Outgoing::Rec(
                RecorderCmd::Start {
                    model,
                    keep_audio: self.setup.settings.keep_audio,
                    input_device: copy_opt(&self.setup.settings.input_device),
                    audio_dir,
                    record_mic,
                    record_system,
                    live: self.setup.settings.live_transcription,
                    integration,
                },
            ),
        );
        out
    }

    /// Mutes or unmutes the microphone.
    pub fn toggle_mic(&mut self) -> (out: Vec<Outgoing>)
        ensures
            final(self)@ == (UiView {
                rec: RecorderView { mic_muted: !old(self).rec.mic_muted, ..old(self)@.rec },
                ..old(self)@
            }),
            out@ == seq![Outgoing::Rec(RecorderCmd::SetMicMuted(!old(self).rec.mic_muted))],
    {
        self.rec.mic_muted = !self.rec.mic_muted;
        let mut out: Vec<Outgoing> = Vec::new();
        out.push(Outgoing::Rec(RecorderCmd::SetMicMuted(self.rec.mic_muted)));
        out
    }

    /// Mutes or unmutes the system audio.
    pub fn toggle_system(&mut self) -> (out: Vec<Outgoing>)
        ensures
            final(self)@ == (UiView {
                rec: RecorderView { sys_muted: !old(self).rec.sys_muted, ..old(self)@.rec },
                ..old(self)@
            }),
            out@ == seq![Outgoing::Rec(RecorderCmd::SetSystemMuted(!old(self).rec.sys_muted))],
    {
        self.rec.sys_muted = !self.rec.sys_muted;
        let mut out: Vec<Outgoing> = Vec::new();
        out.push(Outgoing::Rec(RecorderCmd::SetSystemMuted(self.rec.sys_muted)));
        out
    }

    /// Opens or closes the settings; opening them rescans the models.
    pub fn toggle_settings(&mut self) -> (out: Vec<Outgoing>)
        ensures
            final(self)@ == (UiView {
                setup: SetupPaneView {
                    show_settings: !old(self).setup.show_settings,
                    ..old(self)@.setup
                },
                ..old(self)@
            }),
            out@ == (if old(self).setup.show_settings {
                Seq::empty()
            } else {
                seq![Outgoing::Model(ModelCmd::List)]
            }),
    {
        let mut out: Vec<Outgoing> = Vec::new();
        self.setup.show_settings = !self.setup.show_settings;
        if self.setup.show_settings {
            out.push(Outgoing::Model(ModelCmd::List));
        }
        out
    }

    /// Opens the overview and loads its document.
    pub fn open_overview(&mut self) -> (out: Vec<Outgoing>)
        ensures
            final(self)@ == (UiView {
                screen: Screen::Overview,
                seek: SearchPaneView { find_open: false, ..old(self)@.seek },
                line: old(self)@.line.closed(),
                talk: ChatPaneView::none(),
                ..old(self)@
            }),
            out@ == old(self)@.line.closing().push(Outgoing::Db(DbCmd::LoadOverviewDoc)),
    {
        self.screen = Screen::Overview;
        self.seek.find_open = false;
        let mut out = self.line.close();
        self.talk.reset();
        out.push(Outgoing::Db(DbCmd::LoadOverviewDoc));
        out
    }

    /// Opens the search view; the last query and its results stay.
    pub fn open_search(&mut self) -> (out: Vec<Outgoing>)
        ensures
            final(self)@ == (UiView {
                screen: Screen::Search,
                seek: SearchPaneView { find_open: false, ..old(self)@.seek },
                line: old(self)@.line.closed(),
                ..old(self)@
            }),
            out@ == old(self)@.line.closing(),
    {
        self.screen = Screen::Search;
        self.seek.find_open = false;
        self.line.close()
    }

    /// Opens the speakers view, in builds that have it.
    pub fn open_speakers(&mut self, features: Features) -> (out: Vec<Outgoing>)
        ensures
            !features.voiceprints ==> final(self)@ == old(self)@ && out@.len() == 0,
            features.voiceprints ==> final(self)@ == (UiView {
                screen: Screen::Speakers,
                seek: SearchPaneView { find_open: false, ..old(self)@.seek },
                line: old(self)@.line.closed(),
                ..old(self)@
            }) && out@ == old(self)@.line.closing().push(Outgoing::Db(DbCmd::Voiceprints)),
    {
        if !features.voiceprints {
            return Vec::new();
        }
        self.screen = Screen::Speakers;
        self.seek.find_open = false;
        let mut out = self.line.close();
        out.push(Outgoing::Db(DbCmd::Voiceprints));
        out
    }

    /// Runs a query: a blank one clears the results, another goes to the semantic
    /// index or to the full-text search.
    pub fn run_query(&mut self, q: String, features: Features) -> (out: Vec<Outgoing>)
        ensures
            final(self)@ == (UiView {
                seek: SearchPaneView {
                    search_query: q@,
                    search_results: if is_blank(q@) {
                        Seq::empty()
                    } else {
                        old(self)@.seek.search_results
                    },
                    note_results: if is_blank(q@) {
                        Seq::empty()
                    } else {
                        old(self)@.seek.note_results
                    },
                    ..old(self)@.seek
                },
                ..old(self)@
            }),
            out@ == (if is_blank(q@) {
                Seq::empty()
            } else if features.semantic && old(self).seek.semantic_mode {
                seq![Outgoing::Embed(EmbedCmd::Query(q))]
            } else {
                seq![Outgoing::Db(DbCmd::Search(q))]
            }),
    {
        let mut out: Vec<Outgoing> = Vec::new();
        self.seek.search_query = q.clone();
        if blank(&q) {
            self.seek.search_results = Vec::new();
            self.seek.note_results = Vec::new();
        } else if features.semantic && self.seek.semantic_mode {
            out.push(Outgoing::Embed(EmbedCmd::Query(q)));
        } else {
            out.push(Outgoing::Db(DbCmd::Search(q)));
        }
        out
    }

    /// Opens the session of a search hit, and remembers the line to scroll to.
    pub fn open_result(&mut self, id: String, seg_id: Option<i64>) -> (out: Vec<Outgoing>)
        ensures
            final(self)@ == (UiView {
                screen: Screen::Session(id),
                pane: old(self)@.pane.for_hit(),
                talk: ChatPaneView::none(),
                seek: SearchPaneView { scroll_to_seg: seg_id, ..old(self)@.seek },
                ..old(self)@
            }),
            out@ == seq![Outgoing::Db(DbCmd::Load(id))],
    {
        self.screen = Screen::Session(id.clone());
        self.pane.prepare_hit();
        self.talk.reset();
        self.seek.scroll_to_seg = seg_id;
        let mut out: Vec<Outgoing> = Vec::new();
        out.push(Outgoing::Db(DbCmd::Load(id)));
        out
    }

    /// Stores an edited line and reloads the session on screen.
    pub fn edit_segment(&self, segment_id: i64, text: String) -> (out: Vec<Outgoing>)
        ensures
            out@ == seq![Outgoing::Db(DbCmd::EditSegment { segment_id, text })] + (
            match self.screen {
                Screen::Session(id) => seq![Outgoing::Db(DbCmd::Load(id))],
                _ => Seq::empty(),
            }),
    {
        let mut out: Vec<Outgoing> = Vec::new();
        out.push(Outgoing::Db(DbCmd::EditSegment { segment_id, text }));
        if let Screen::Session(id) = &self.screen {
            out.push(Outgoing::Db(DbCmd::Load(id.clone())));
        }
        out
    }

    /// Opens a saved session.
    pub fn open_session(&mut self, id: String) -> (out: Vec<Outgoing>)
        ensures
            final(self)@ == (UiView {
                screen: Screen::Session(id),
                pane: old(self)@.pane.for_session(),
                line: old(self)@.line.emptied(),
                talk: ChatPaneView::none(),
                ..old(self)@
            }),
            out@ == old(self)@.line.closing() + seq![
                Outgoing::Play(PlayCmd::Stop),
                Outgoing::Db(DbCmd::Load(id)),
            ],
    {
        let mut out = self.line.empty();
        self.screen = Screen::Session(id.clone());
        self.pane.prepare_session();
        self.talk.reset();
        out.push(Outgoing::Play(PlayCmd::Stop));
        out.push(Outgoing::Db(DbCmd::Load(id)));
        out
    }

    /// Goes back to the running recording.
    pub fn show_live(&mut self) -> (out: Vec<Outgoing>)
        ensures
            final(self)@ == (UiView {
                screen: Screen::Live,
                pane: SessionPaneView {
                    summary: None,
                    compressed: None,
                    speaker_names: Map::empty(),
                    ..old(self)@.pane
                },
                line: old(self)@.line.emptied(),
                ..old(self)@
            }),
            out@ == old(self)@.line.closing(),
    {
        let out = self.line.empty();
        self.screen = Screen::Live;
        self.pane.summary = None;
        self.pane.compressed = None;
        self.pane.speaker_names = HashMap::new();
        out
    }

    /// Opens the timeline of a session.
    pub fn open_timeline(&mut self, id: String) -> (out: Vec<Outgoing>)
        ensures
            final(self)@ == (UiView {
                line: TimelinePaneView {
                    timeline_open: true,
                    timeline_lanes: Seq::empty(),
                    ..old(self)@.line
                },
                ..old(self)@
            }),
            out@ == seq![Outgoing::Db(DbCmd::LoadTimeline(id))],
    {
        self.line.timeline_open = true;
        self.line.timeline_lanes = Vec::new();
        let mut out: Vec<Outgoing> = Vec::new();
        out.push(Outgoing::Db(DbCmd::LoadTimeline(id)));
        out
    }

    /// Shows or hides the analytics card; showing it recomputes the analytics.
    pub fn toggle_stats(&mut self, id: String) -> (out: Vec<Outgoing>)
        ensures
            final(self)@ == (UiView {
                line: TimelinePaneView { stats_open: !old(self).line.stats_open, ..old(self)@.line },
                ..old(self)@
            }),
            out@ == (if old(self).line.stats_open {
                Seq::empty()
            } else {
                seq![Outgoing::Db(DbCmd::LoadStats(id))]
            }),
    {
        let mut out: Vec<Outgoing> = Vec::new();
        self.line.stats_open = !self.line.stats_open;
        if self.line.stats_open {
            out.push(Outgoing::Db(DbCmd::LoadStats(id)));
        }
        out
    }

    /// Sends what was typed as a new turn of a conversation; blank input and
    /// input during an answer are ignored.
    pub fn submit_chat(&mut self, scope: ChatScope) -> (out: Vec<Outgoing>)
        ensures
            ({
                let q = trimmed(old(self).talk.chat_input@);
                if q.len() == 0 || old(self).talk.chat_busy {
                    final(self)@ == old(self)@ && out@.len() == 0
                } else {
                    let chat = old(self)@.talk.chat.push((true, q));
                    &&& final(self)@ == (UiView {
                        talk: ChatPaneView {
                            chat,
                            chat_input: Seq::empty(),
                            chat_busy: true,
                            chat_scope: Some(scope),
                        },
                        ..old(self)@
                    })
                    &&& out@.len() == 1
                    &&& out@[0] matches Outgoing::Summ(SummCmd::Chat { scope: s, turns: t })
                    &&& s == scope
                    &&& turns(t@) == chat
                }
            }),
    {
        let mut out: Vec<Outgoing> = Vec::new();
        let q = trim(&self.talk.chat_input);
        if q.as_str().unicode_len() == 0 || self.talk.chat_busy {
            return out;
        }
        let ghost before = self.talk@.chat;
        self.talk.chat_input = String::new();
        self.talk.chat.push((true, q));
        assert(turns(self.talk.chat@) =~= before.push((true, q@)));
        self.talk.chat_scope = Some(scope.copy());
        self.talk.chat_busy = true;
        let copy = copy_turns(&self.talk.chat);
        out.push(Outgoing::Summ(SummCmd::Chat { scope, turns: copy }));
        out
    }

    /// Recomputes the hits of the find bar for the transcript on screen; the bar
    /// goes back to the first hit when they changed.
    pub fn refresh_find(&mut self)
        ensures
            ({
                let s = old(self)@;
                let hits = if s.seek.find_query.len() == 0 || !s.seek.find_open {
                    Seq::empty()
                } else if s.screen is Live {
                    hits_in(s.rec.live_segments, s.seek.find_query)
                } else {
                    hits_in(s.pane.segments, s.seek.find_query)
                };
                final(self)@ == (UiView {
                    seek: SearchPaneView {
                        find_hits: hits,
                        find_active: if hits == s.seek.find_hits {
                            s.seek.find_active
                        } else {
                            0
                        },
                        ..s.seek
                    },
                    ..s
                })
            }),
    {
        let live = match &self.screen {
            Screen::Live => true,
            _ => false,
        };
        let hits = if self.seek.find_query.as_str().unicode_len() == 0 || !self.seek.find_open {
            Vec::new()
        } else if live {
            find_hits(self.rec.live_segments.as_slice(), &self.seek.find_query)
        } else {
            find_hits(self.pane.segments.as_slice(), &self.seek.find_query)
        };
        if !same_ids(&hits, &self.seek.find_hits) {
            self.seek.find_hits = hits;
            self.seek.find_active = 0;
        }
    }

    /// Closes the find bar.
    pub fn close_find(&mut self)
        ensures
            final(self)@ == (UiView {
                seek: SearchPaneView {
                    find_open: false,
                    find_query: Seq::empty(),
                    highlight_seg: None,
                    ..old(self)@.seek
                },
                ..old(self)@
            }),
    {
        self.seek.find_open = false;
        self.seek.find_query = String::new();
        self.seek.highlight_seg = None;
    }

    /// Moves the find bar to the next or the previous hit and highlights it.
    pub fn step_find(&mut self, forward: bool)
        requires
            forward && old(self).seek.find_hits@.len() > 0 ==> old(self).seek.find_active
                < usize::MAX,
        ensures
            ({
                let s = old(self)@.seek;
                let n = s.find_hits.len() as int;
                let next = crate::find::stepped(s.find_active as int, n, forward);
                final(self)@ == (UiView {
                    seek: if n == 0 {
                        s
                    } else {
                        SearchPaneView {
                            find_active: next as usize,
                            highlight_seg: if next < n {
                                Some(s.find_hits[next])
                            } else {
                                s.highlight_seg
                            },
                            ..s
                        }
                    },
                    ..old(self)@
                })
            }),
    {
        if let Some(next) = crate::find::find_step(
            self.seek.find_active,
            self.seek.find_hits.len(),
            forward,
        ) {
            self.seek.find_active = next;
            if next < self.seek.find_hits.len() {
                self.seek.highlight_seg = Some(self.seek.find_hits[next]);
            }
        }
    }

    /// The session that the notes belong to: the one on screen, or the running
    /// recording.
    pub fn notes_target(&self) -> (r: Option<String>)
        ensures
            r == (match self.screen {
                Screen::Session(id) => Some(id),
                _ => if is_recording(self.rec.status) {
                    self.rec.live_session_id
                } else {
                    None
                },
            }),
    {
        if let Screen::Session(id) = &self.screen {
            return Some(id.clone());
        }
        if recording(&self.rec.status) {
            copy_opt(&self.rec.live_session_id)
        } else {
            None
        }
    }

    /// Stores the notes as typed; blank notes count as none.
    pub fn save_notes(&mut self, id: String) -> (out: Vec<Outgoing>)
        ensures
            ({
                let draft = old(self).pane.notes_draft;
                &&& final(self)@ == (UiView {
                    pane: SessionPaneView {
                        notes: if is_blank(draft@) {
                            None
                        } else {
                            Some(draft)
                        },
                        ..old(self)@.pane
                    },
                    ..old(self)@
                })
                &&& out@ == seq![Outgoing::Db(DbCmd::SetNotes { id, notes: draft })]
            }),
    {
        let text = self.pane.notes_draft.clone();
        self.pane.notes = if blank(&text) {
            None
        } else {
            Some(text.clone())
        };
        let mut out: Vec<Outgoing> = Vec::new();
        out.push(Outgoing::Db(DbCmd::SetNotes { id, notes: text }));
        out
    }

    fn leave_deleted(&mut self)
        ensures
            final(self)@ == emptied_screen(old(self)@),
    {
        self.screen = Screen::Live;
        self.pane.segments = Vec::new();
        self.pane.summary = None;
        self.pane.compressed = None;
    }

    /// Deletes a session; if it is on screen, the window goes back to the live
    /// view.
    pub fn delete_session(&mut self, id: String) -> (out: Vec<Outgoing>)
        ensures
            final(self)@ == (if old(self).screen.shows(id@) {
                emptied_screen(old(self)@)
            } else {
                old(self)@
            }),
            out@ == seq![Outgoing::Db(DbCmd::DeleteSession(id))],
    {
        if self.screen.is_session(&id) {
            self.leave_deleted();
        }
        let mut out: Vec<Outgoing> = Vec::new();
        out.push(Outgoing::Db(DbCmd::DeleteSession(id)));
        out
    }

    /// Deletes the selected sessions and clears the selection; if one of them is
    /// on screen, the window goes back to the live view.
    pub fn delete_selected(&mut self) -> (out: Vec<Outgoing>)
        ensures
            ({
                let s = old(self)@;
                let ids = s.shelf.selected_sessions;
                let t = if on_screen(s.screen, ids) {
                    emptied_screen(s)
                } else {
                    s
                };
                &&& final(self)@ == (UiView {
                    shelf: ShelfView { selected_sessions: Seq::empty(), ..t.shelf },
                    ..t
                })
                &&& out@.len() == 1
                &&& out@[0] matches Outgoing::Db(DbCmd::DeleteSessions(v))
                &&& v@ == ids
            }),
    {
        let ids = crate::text::copy_all(&self.shelf.selected_sessions);
        let gone = shows_any(&self.screen, &ids);
        if gone {
            self.leave_deleted();
        }
        self.shelf.selected_sessions = Vec::new();
        let mut out: Vec<Outgoing> = Vec::new();
        out.push(Outgoing::Db(DbCmd::DeleteSessions(ids)));
        out
    }

    /// Starts the re-transcription of a session.
    pub fn retranscribe(&mut self, id: String) -> (out: Vec<Outgoing>)
        ensures
            final(self)@ == (UiView {
                notice: Some("Re-transcribing… (runs in the background)"@),
                pane: SessionPaneView { retranscribing: true, ..old(self)@.pane },
                ..old(self)@
            }),
            out@ == seq![Outgoing::Db(DbCmd::Retranscribe(id))],
    {
        self.pane.retranscribing = true;
        self.notice = Some("Re-transcribing… (runs in the background)".to_string());
        let mut out: Vec<Outgoing> = Vec::new();
        out.push(Outgoing::Db(DbCmd::Retranscribe(id)));
        out
    }
}

/// The window after the session on screen was deleted.
pub open spec fn emptied_screen(s: UiView) -> UiView {
    UiView {
        screen: Screen::Live,
        pane: SessionPaneView {
            segments: Seq::empty(),
            summary: None,
            compressed: None,
            ..s.pane
        },
        ..s
    }
}

/// One of the sessions is on screen.
pub open spec fn on_screen(screen: Screen, ids: Seq<String>) -> bool {
    exists|i: int| 0 <= i < ids.len() && screen.shows((#[trigger] ids[i])@)
}

fn shows_any(screen: &Screen, ids: &Vec<String>) -> (r: bool)
    ensures
        r == on_screen(*screen, ids@),
{
    let mut i: usize = 0;
    while i < ids.len()
        invariant
            i <= ids@.len(),
            forall|k: int| 0 <= k < i ==> !screen.shows((#[trigger] ids@[k])@),
        decreases ids@.len() - i,
    {
        if screen.is_session(&ids[i]) {
            return true;
        }
        i += 1;
    }
    false
}

fn copy_turns(chat: &Vec<(bool, String)>) -> (r: Vec<(bool, String)>)
    ensures
        r@ == chat@,
{
    let mut r: Vec<(bool, String)> = Vec::new();
    let mut i: usize = 0;
    while i < chat.len()
        invariant
            i <= chat@.len(),
            r@ == chat@.take(i as int),
        decreases chat@.len() - i,
    {
        r.push((chat[i].0, chat[i].1.clone()));
        i += 1;
        assert(chat@.take(i as int) =~= chat@.take(i - 1).push(chat@[i - 1]));
    }
    assert(chat@.take(i as int) =~= chat@);
    r
}

fn same_ids(a: &Vec<i64>, b: &Vec<i64>) -> (r: bool)
    ensures
        r == (a@ == b@),
{
    if a.len() != b.len() {
        return false;
    }
    let mut i: usize = 0;
    while i < a.len()
        invariant
            i <= a@.len(),
            a@.len() == b@.len(),
            forall|k: int| 0 <= k < i ==> #[trigger] a@[k] == b@[k],
        decreases a@.len() - i,
    {
        if a[i] != b[i] {
            return false;
        }
        i += 1;
    }
    assert(a@ =~= b@);
    true
}

/// The command that replays a line, or stops the playback.
pub fn play_request(req: Option<(String, i64, u64, u64)>) -> (r: PlayCmd)
    ensures
        r == (match req {
            Some((wav, segment_id, start_ms, end_ms)) => PlayCmd::Play {
                segment_id,
                wav,
                start_ms,
                end_ms,
            },
            None => PlayCmd::Stop,
        }),
{
    match req {
        Some((wav, segment_id, start_ms, end_ms)) => PlayCmd::Play {
            segment_id,
            wav,
            start_ms,
            end_ms,
        },
        None => PlayCmd::Stop,
    }
}

// ---------------------------------------------------------------------------
// What bursts and resets do
// ---------------------------------------------------------------------------

/// A burst is its events one after the other: two bursts act as one with the events of
/// both, and of the levels of a channel the last one counts.
pub proof fn bursts_are_their_events_in_order(
    s: UiView,
    a: Seq<(Event, u64)>,
    b: Seq<(Event, u64)>,
    source: Source,
)
    ensures
        after_burst(s, a + b) == after_burst(after_burst(s, a), b),
        burst_replies(s, a + b) == burst_replies(s, a) + burst_replies(after_burst(s, a), b),
        newest_level(b, source) is Some ==> newest_level(a + b, source) == newest_level(b, source),
        newest_level(b, source) is None ==> newest_level(a + b, source) == newest_level(a, source),
    decreases b.len(),
{
    if b.len() == 0 {
        assert(a + b =~= a);
        assert(burst_replies(s, a) + burst_replies(after_burst(s, a), b) =~= burst_replies(s, a));
    } else {
        assert((a + b).drop_last() =~= a + b.drop_last());
        assert((a + b).last() == b.last());
        bursts_are_their_events_in_order(s, a, b.drop_last(), source);
        assert(burst_replies(s, a + b) =~= burst_replies(s, a) + burst_replies(
            after_burst(s, a),
            b,
        ));
    }
}

/// A burst of one event is that event; a level is one of its channel only.
pub proof fn single_events_act_alone(
    s: UiView,
    ev: Event,
    now: u64,
    source: Source,
    level: u32,
    other: Source,
)
    ensures
        after_burst(s, seq![(ev, now)]) == reduce(s, ev, now),
        burst_replies(s, seq![(ev, now)]) == replies(s, ev),
        newest_level(seq![(Event::Level { source, level }, now)], source) == Some(level),
        other != source ==> newest_level(
            seq![(Event::Level { source, level }, now)],
            other,
        ) is None,
        !(ev is Level) ==> newest_level(seq![(ev, now)], source) is None,
{
    let one = seq![(ev, now)];
    let two = seq![(Event::Level { source, level }, now)];
    assert(one.drop_last() =~= Seq::empty());
    assert(two.drop_last() =~= Seq::empty());
    assert(after_burst(s, one.drop_last()) == s);
    assert(burst_replies(s, one.drop_last()) =~= Seq::<Outgoing>::empty());
    assert(burst_replies(s, one) =~= replies(s, ev));
    assert(newest_level(two.drop_last(), other) is None);
    assert(newest_level(one.drop_last(), source) is None);
}

/// New levels show on their own meter, and a missing one leaves its meter.
pub proof fn levels_show_on_their_meter(s: UiView, a: Option<u32>, b: Option<u32>)
    ensures
        a is Some ==> with_levels(s, a, b).rec.me_level == a->0,
        a is None ==> with_levels(s, a, b).rec.me_level == s.rec.me_level,
        b is Some ==> with_levels(s, a, b).rec.others_level == b->0,
        b is None ==> with_levels(s, a, b).rec.others_level == s.rec.others_level,
        with_levels(s, None, None) == s,
        with_levels(s, a, b).rec.live_segments == s.rec.live_segments,
        with_levels(s, a, b).rec.status == s.rec.status,
        with_levels(s, a, b).pane == s.pane,
        with_levels(s, a, b).screen == s.screen,
{
}

/// Closing the timeline takes its lanes and its playhead away, and stops a playback
/// exactly if it was open; the analytics card stays unless everything goes.
pub proof fn closing_clears_the_timeline(p: TimelinePaneView)
    ensures
        !p.closed().timeline_open && p.closed().timeline_lanes.len() == 0
            && p.closed().timeline_pos is None,
        p.closed().stats_open == p.stats_open && p.closed().session_stats == p.session_stats,
        !p.emptied().timeline_open && p.emptied().timeline_lanes.len() == 0
            && p.emptied().timeline_pos is None && !p.emptied().stats_open
            && p.emptied().session_stats is None,
        p.closing().contains(Outgoing::Play(PlayCmd::Stop)) <==> p.timeline_open,
        p.closing().len() <= 1,
        p.closed().closing().len() == 0,
{
    if p.timeline_open {
        assert(p.closing()[0] == Outgoing::Play(PlayCmd::Stop));
    }
}

/// Nothing of the session before shows in the next one: no summary, no busy mark, no
/// files; a recording begins with an empty transcript as well, and a search hit keeps the
/// transcript until its own arrives.
pub proof fn panes_are_cleared_between_sessions(p: SessionPaneView)
    ensures
        ({
            let r = p.for_recording();
            &&& r.segments.len() == 0 && r.summary is None && r.compressed is None
            &&& !r.summarizing && !r.compressing && !r.diarizing && !r.retranscribing
            &&& r.audio_files == AudioFilesView::none() && r.me_speaker is None
            &&& r.speaker_names == Map::<i32, String>::empty()
            &&& r.last_export == p.last_export && r.diar_speakers == p.diar_speakers
        }),
        ({
            let r = p.for_session();
            &&& r.last_export is None && r.summary is None && r.compressed is None
            &&& !r.summarizing && !r.compressing && !r.diarizing && !r.retranscribing
            &&& r.diar_speakers.len() == 0 && r.audio_files == AudioFilesView::none()
            &&& r.me_speaker is None
            &&& r.segments == p.segments && r.speaker_names == p.speaker_names
        }),
        ({
            let r = p.for_hit();
            &&& r.last_export is None && r.summary is None && r.compressed is None
            &&& !r.summarizing && !r.compressing && !r.diarizing
            &&& r.retranscribing == p.retranscribing && r.segments == p.segments
            &&& r.audio_files == p.audio_files && r.me_speaker == p.me_speaker
            &&& r.diar_speakers == p.diar_speakers
        }),
{
}

/// Cancelling a job takes the busy mark of its own kind away and leaves the others.
pub proof fn cancelling_clears_its_own_mark(p: SessionPaneView, kind: Seq<char>)
    ensures
        ({
            let r = flag_cleared(p, kind);
            &&& r.summarizing == (p.summarizing && kind != "summarize"@)
            &&& r.compressing == (p.compressing && kind != "compress"@)
            &&& r.diarizing == (p.diarizing && kind != "diarize"@)
            &&& r.retranscribing == (p.retranscribing && kind != "retranscribe"@)
            &&& kind == "diarize"@ ==> r.diarize_est_secs is None
            &&& kind != "diarize"@ ==> r.diarize_est_secs == p.diarize_est_secs
            &&& r.segments == p.segments && r.summary == p.summary && r.notes == p.notes
        }),
{
    reveal_strlit("summarize");
    reveal_strlit("compress");
    reveal_strlit("diarize");
    reveal_strlit("retranscribe");
    assert("summarize"@.len() == 9 && "compress"@.len() == 8 && "diarize"@.len() == 7
        && "retranscribe"@.len() == 12);
}

/// A job's kind is that of the first entry with its id.
pub proof fn kinds_are_looked_up_by_id(jobs: Seq<JobView>, id: Seq<char>, i: int)
    ensures
        0 <= i < jobs.len() && jobs[i].id@ == id && (forall|j: int|
            0 <= j < i ==> (#[trigger] jobs[j]).id@ != id) ==> kind_on_board(jobs, id) == Some(
            jobs[i].kind@,
        ),
        (forall|j: int| 0 <= j < jobs.len() ==> (#[trigger] jobs[j]).id@ != id) ==> kind_on_board(
            jobs,
            id,
        ) is None,
    decreases jobs.len(),
{
    if jobs.len() > 0 && jobs[0].id@ != id {
        let t = jobs.skip(1);
        kinds_are_looked_up_by_id(t, id, i - 1);
        if forall|j: int| 0 <= j < i ==> (#[trigger] jobs[j]).id@ != id {
            assert forall|j: int| 0 <= j < i - 1 && j < t.len() implies (#[trigger] t[j]).id@
                != id by {
                assert(t[j] == jobs[j + 1]);
            }
        }
        if forall|j: int| 0 <= j < jobs.len() ==> (#[trigger] jobs[j]).id@ != id {
            assert forall|j: int| 0 <= j < t.len() implies (#[trigger] t[j]).id@ != id by {
                assert(t[j] == jobs[j + 1]);
            }
        }
        if 0 < i < jobs.len() {
            assert(t[i - 1] == jobs[i]);
        }
    } else if jobs.len() > 0 {
        if 0 < i < jobs.len() && forall|j: int| 0 <= j < i ==> (#[trigger] jobs[j]).id@ != id {
            assert(jobs[0].id@ != id);
        }
    }
}

/// A recording is started with the settings as they are: the audio kept, the device, the
/// live transcript, and the channels of the mode.
pub proof fn recordings_start_as_set(
    s: crate::settings::Settings,
    b: bool,
    name: String,
    dir: String,
)
    ensures
        start_command(s, b, name, dir) matches RecorderCmd::Start {
            model,
            keep_audio,
            input_device,
            audio_dir,
            record_mic,
            record_system,
            live,
            integration,
        } && model == name && keep_audio == s.keep_audio && input_device == s.input_device && audio_dir
            == dir && live == s.live_transcription && integration == b && (record_mic
            <==> s.capture_mode@ != "system"@) && (record_system <==> s.capture_mode@ != "mic"@),
{
}

/// The screen is emptied for the session on it: back to the live view, with no
/// transcript and no summary.
pub proof fn deleted_sessions_leave_the_screen(s: UiView)
    ensures
        emptied_screen(s).screen is Live,
        emptied_screen(s).pane.segments.len() == 0,
        emptied_screen(s).pane.summary is None && emptied_screen(s).pane.compressed is None,
        emptied_screen(s).rec == s.rec && emptied_screen(s).shelf == s.shelf
            && emptied_screen(s).board == s.board,
        emptied_screen(s).pane.notes == s.pane.notes,
{
}

/// A recording runs, or is about to, from the moment its model is prepared; an idle or
/// failed recorder does not.
pub proof fn idle_recorders_do_not_record(st: Status)
    ensures
        is_recording(st) <==> !(st is Idle || st is Error),
{
}

} // verus!
