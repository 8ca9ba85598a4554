//! The state of the window: how worker events and user actions change it, and
//! which commands an action sends to the workers.

use std::collections::HashMap;

use crate::model::{
    AudioFiles, AudioFilesView, ChatScope, DbCmd, EmbedCmd, Event, ModelCmd, ModelInfo, PlayCmd,
    RecorderCmd, Segment, Session, SessionStats, Status, SummCmd, TimelineLane, VoiceprintInfo,
};
#[allow(unused_imports)]
use crate::number::{decimal, write_u64};
use crate::settings::Settings;
use vstd::prelude::*;

verus! {

/// What the main column shows.
#[derive(Debug, Clone)]
pub enum Screen {
    Live,
    Session(String),
    Search,
    Overview,
    Speakers,
}

impl Screen {
    /// The screen shows this session.
    pub open spec fn shows(self, id: Seq<char>) -> bool {
        self matches Screen::Session(cur) && cur@ == id
    }

    /// Whether the screen shows this session.
    pub fn is_session(&self, id: &String) -> (r: bool)
        ensures
            r == self.shows(id@),
    {
        match self {
            Screen::Session(cur) => *cur == *id,
            _ => false,
        }
    }
}

/// A running background job.
#[derive(Debug, Clone)]
pub struct JobView {
    pub id: String,
    pub kind: String,
    pub label: String,
    pub started_at: u64,
}

/// A command that an action sends.
#[derive(Debug, Clone)]
pub enum Outgoing {
    Rec(RecorderCmd),
    Db(DbCmd),
    Model(ModelCmd),
    Play(PlayCmd),
    Embed(EmbedCmd),
    Summ(SummCmd),
    CancelJob(String),
    /// Write the settings to disk.
    SaveSettings,
}

/// The turns of a conversation, by their characters.
pub open spec fn turns(c: Seq<(bool, String)>) -> Seq<(bool, Seq<char>)> {
    c.map_values(|t: (bool, String)| (t.0, t.1@))
}

/// The characters of an optional text.
pub open spec fn opt_chars(o: Option<String>) -> Option<Seq<char>> {
    match o {
        Some(s) => Some(s@),
        None => None,
    }
}

/// The running recording.
pub struct Recorder {
    pub status: Status,
    /// Lines of the running recording.
    pub live_segments: Vec<Segment>,
    pub me_level: u32,
    pub others_level: u32,
    pub live_session_id: Option<String>,
    pub rec_secs: u64,
    pub mic_muted: bool,
    pub sys_muted: bool,
    pub recording_discord: bool,
}

/// What a [`Recorder`] holds.
#[verifier::ext_equal]
pub struct RecorderView {
    pub status: Status,
    pub live_segments: Seq<Segment>,
    pub me_level: u32,
    pub others_level: u32,
    pub live_session_id: Option<String>,
    pub rec_secs: u64,
    pub mic_muted: bool,
    pub sys_muted: bool,
    pub recording_discord: bool,
}

impl View for Recorder {
    type V = RecorderView;

    open spec fn view(&self) -> RecorderView {
        RecorderView {
            status: self.status,
            live_segments: self.live_segments@,
            me_level: self.me_level,
            others_level: self.others_level,
            live_session_id: self.live_session_id,
            rec_secs: self.rec_secs,
            mic_muted: self.mic_muted,
            sys_muted: self.sys_muted,
            recording_discord: self.recording_discord,
        }
    }
}

/// The saved session on screen.
pub struct SessionPane {
    /// Lines of the saved session on screen.
    pub segments: Vec<Segment>,
    pub summary: Option<String>,
    pub compressed: Option<String>,
    pub notes: Option<String>,
    pub notes_draft: String,
    pub summarizing: bool,
    pub compressing: bool,
    pub diarizing: bool,
    pub retranscribing: bool,
    pub diar_speakers: String,
    pub diarize_est_secs: Option<u64>,
    pub audio_files: AudioFiles,
    pub me_speaker: Option<i32>,
    pub playing_seg: Option<i64>,
    pub speaker_names: HashMap<i32, String>,
    pub last_export: Option<String>,
}

/// What a [`SessionPane`] holds.
#[verifier::ext_equal]
pub struct SessionPaneView {
    pub segments: Seq<Segment>,
    pub summary: Option<String>,
    pub compressed: Option<String>,
    pub notes: Option<String>,
    pub notes_draft: Seq<char>,
    pub summarizing: bool,
    pub compressing: bool,
    pub diarizing: bool,
    pub retranscribing: bool,
    pub diar_speakers: Seq<char>,
    pub diarize_est_secs: Option<u64>,
    pub audio_files: AudioFilesView,
    pub me_speaker: Option<i32>,
    pub playing_seg: Option<i64>,
    pub speaker_names: Map<i32, String>,
    pub last_export: Option<String>,
}

impl View for SessionPane {
    type V = SessionPaneView;

    open spec fn view(&self) -> SessionPaneView {
        SessionPaneView {
            segments: self.segments@,
            summary: self.summary,
            compressed: self.compressed,
            notes: self.notes,
            notes_draft: self.notes_draft@,
            summarizing: self.summarizing,
            compressing: self.compressing,
            diarizing: self.diarizing,
            retranscribing: self.retranscribing,
            diar_speakers: self.diar_speakers@,
            diarize_est_secs: self.diarize_est_secs,
            audio_files: self.audio_files@,
            me_speaker: self.me_speaker,
            playing_seg: self.playing_seg,
            speaker_names: self.speaker_names@,
            last_export: self.last_export,
        }
    }
}

/// The timeline and the analytics card.
pub struct TimelinePane {
    pub timeline_open: bool,
    pub timeline_lanes: Vec<TimelineLane>,
    pub timeline_pos: Option<u64>,
    pub stats_open: bool,
    pub session_stats: Option<SessionStats>,
}

/// What a [`TimelinePane`] holds.
#[verifier::ext_equal]
pub struct TimelinePaneView {
    pub timeline_open: bool,
    pub timeline_lanes: Seq<TimelineLane>,
    pub timeline_pos: Option<u64>,
    pub stats_open: bool,
    pub session_stats: Option<SessionStats>,
}

impl View for TimelinePane {
    type V = TimelinePaneView;

    open spec fn view(&self) -> TimelinePaneView {
        TimelinePaneView {
            timeline_open: self.timeline_open,
            timeline_lanes: self.timeline_lanes@,
            timeline_pos: self.timeline_pos,
            stats_open: self.stats_open,
            session_stats: self.session_stats,
        }
    }
}

/// The open conversation.
pub struct ChatPane {
    pub chat: Vec<(bool, String)>,
    pub chat_input: String,
    pub chat_busy: bool,
    pub chat_scope: Option<ChatScope>,
}

/// What a [`ChatPane`] holds.
#[verifier::ext_equal]
pub struct ChatPaneView {
    pub chat: Seq<(bool, Seq<char>)>,
    pub chat_input: Seq<char>,
    pub chat_busy: bool,
    pub chat_scope: Option<ChatScope>,
}

impl View for ChatPane {
    type V = ChatPaneView;

    open spec fn view(&self) -> ChatPaneView {
        ChatPaneView {
            chat: turns(self.chat@),
            chat_input: self.chat_input@,
            chat_busy: self.chat_busy,
            chat_scope: self.chat_scope,
        }
    }
}

/// Sessions, known voices and the overview document.
pub struct Shelf {
    pub sessions: Vec<Session>,
    pub session_badges: Vec<(String, (bool, bool, bool))>,
    pub selected_sessions: Vec<String>,
    pub select_anchor: Option<String>,
    pub voiceprints: Vec<VoiceprintInfo>,
    pub overview_doc: String,
    pub overview_doc_updated: u64,
}

/// What a [`Shelf`] holds.
#[verifier::ext_equal]
pub struct ShelfView {
    pub sessions: Seq<Session>,
    pub session_badges: Seq<(String, (bool, bool, bool))>,
    pub selected_sessions: Seq<String>,
    pub select_anchor: Option<String>,
    pub voiceprints: Seq<VoiceprintInfo>,
    pub overview_doc: Seq<char>,
    pub overview_doc_updated: u64,
}

impl View for Shelf {
    type V = ShelfView;

    open spec fn view(&self) -> ShelfView {
        ShelfView {
            sessions: self.sessions@,
            session_badges: self.session_badges@,
            selected_sessions: self.selected_sessions@,
            select_anchor: self.select_anchor,
            voiceprints: self.voiceprints@,
            overview_doc: self.overview_doc@,
            overview_doc_updated: self.overview_doc_updated,
        }
    }
}

/// Searching: across sessions, and within the transcript on screen.
pub struct SearchPane {
    pub search_results: Vec<(String, Segment)>,
    pub note_results: Vec<(String, String)>,
    pub semantic_mode: bool,
    pub search_query: String,
    pub scroll_to_seg: Option<i64>,
    pub highlight_seg: Option<i64>,
    pub find_open: bool,
    pub find_query: String,
    pub find_active: usize,
    pub find_hits: Vec<i64>,
}

/// What a [`SearchPane`] holds.
#[verifier::ext_equal]
pub struct SearchPaneView {
    pub search_results: Seq<(String, Segment)>,
    pub note_results: Seq<(String, String)>,
    pub semantic_mode: bool,
    pub search_query: Seq<char>,
    pub scroll_to_seg: Option<i64>,
    pub highlight_seg: Option<i64>,
    pub find_open: bool,
    pub find_query: Seq<char>,
    pub find_active: usize,
    pub find_hits: Seq<i64>,
}

impl View for SearchPane {
    type V = SearchPaneView;

    open spec fn view(&self) -> SearchPaneView {
        SearchPaneView {
            search_results: self.search_results@,
            note_results: self.note_results@,
            semantic_mode: self.semantic_mode,
            search_query: self.search_query@,
            scroll_to_seg: self.scroll_to_seg,
            highlight_seg: self.highlight_seg,
            find_open: self.find_open,
            find_query: self.find_query@,
            find_active: self.find_active,
            find_hits: self.find_hits@,
        }
    }
}

/// Settings and models.
pub struct SetupPane {
    pub settings: Settings,
    pub show_settings: bool,
    pub remote_models: Vec<String>,
    pub models: Vec<ModelInfo>,
    pub model_progress: Option<(String, u8)>,
    pub download_help: Option<String>,
}

/// What a [`SetupPane`] holds.
#[verifier::ext_equal]
pub struct SetupPaneView {
    pub settings: Settings,
    pub show_settings: bool,
    pub remote_models: Seq<String>,
    pub models: Seq<ModelInfo>,
    pub model_progress: Option<(String, u8)>,
    pub download_help: Option<String>,
}

impl View for SetupPane {
    type V = SetupPaneView;

    open spec fn view(&self) -> SetupPaneView {
        SetupPaneView {
            settings: self.settings,
            show_settings: self.show_settings,
            remote_models: self.remote_models@,
            models: self.models@,
            model_progress: self.model_progress,
            download_help: self.download_help,
        }
    }
}

/// Background jobs.
pub struct Board {
    pub jobs: Vec<JobView>,
    pub job_tick: u64,
    pub show_jobs: bool,
}

/// What a [`Board`] holds.
#[verifier::ext_equal]
pub struct BoardView {
    pub jobs: Seq<JobView>,
    pub job_tick: u64,
    pub show_jobs: bool,
}

impl View for Board {
    type V = BoardView;

    open spec fn view(&self) -> BoardView {
        BoardView {
            jobs: self.jobs@,
            job_tick: self.job_tick,
            show_jobs: self.show_jobs,
        }
    }
}

/// Everything the window remembers.
pub struct UiState {
    pub notice: Option<String>,
    pub screen: Screen,
    pub rec: Recorder,
    pub pane: SessionPane,
    pub line: TimelinePane,
    pub talk: ChatPane,
    pub shelf: Shelf,
    pub seek: SearchPane,
    pub setup: SetupPane,
    pub board: Board,
}

/// What a [`UiState`] holds.
#[verifier::ext_equal]
pub struct UiView {
    pub notice: Option<Seq<char>>,
    pub screen: Screen,
    pub rec: RecorderView,
    pub pane: SessionPaneView,
    pub line: TimelinePaneView,
    pub talk: ChatPaneView,
    pub shelf: ShelfView,
    pub seek: SearchPaneView,
    pub setup: SetupPaneView,
    pub board: BoardView,
}

impl View for UiState {
    type V = UiView;

    open spec fn view(&self) -> UiView {
        UiView {
            notice: opt_chars(self.notice),
            screen: self.screen,
            rec: self.rec@,
            pane: self.pane@,
            line: self.line@,
            talk: self.talk@,
            shelf: self.shelf@,
            seek: self.seek@,
            setup: self.setup@,
            board: self.board@,
        }
    }
}

/// The window at start.
pub open spec fn blank_view(settings: Settings) -> UiView {
    UiView {
        notice: None,
        screen: Screen::Live,
        rec: RecorderView {
            status: Status::Idle,
            live_segments: Seq::empty(),
            me_level: 0,
            others_level: 0,
            live_session_id: None,
            rec_secs: 0,
            mic_muted: false,
            sys_muted: false,
            recording_discord: false,
        },
        pane: SessionPaneView {
            segments: Seq::empty(),
            summary: None,
            compressed: None,
            notes: None,
            notes_draft: Seq::empty(),
            summarizing: false,
            compressing: false,
            diarizing: false,
            retranscribing: false,
            diar_speakers: Seq::empty(),
            diarize_est_secs: None,
            audio_files: AudioFilesView::none(),
            me_speaker: None,
            playing_seg: None,
            speaker_names: Map::empty(),
            last_export: None,
        },
        line: TimelinePaneView {
            timeline_open: false,
            timeline_lanes: Seq::empty(),
            timeline_pos: None,
            stats_open: false,
            session_stats: None,
        },
        talk: ChatPaneView {
            chat: Seq::empty(),
            chat_input: Seq::empty(),
            chat_busy: false,
            chat_scope: None,
        },
        shelf: ShelfView {
            sessions: Seq::empty(),
            session_badges: Seq::empty(),
            selected_sessions: Seq::empty(),
            select_anchor: None,
            voiceprints: Seq::empty(),
            overview_doc: Seq::empty(),
            overview_doc_updated: 0,
        },
        seek: SearchPaneView {
            search_results: Seq::empty(),
            note_results: Seq::empty(),
            semantic_mode: false,
            search_query: Seq::empty(),
            scroll_to_seg: None,
            highlight_seg: None,
            find_open: false,
            find_query: Seq::empty(),
            find_active: 0,
            find_hits: Seq::empty(),
        },
        setup: SetupPaneView {
            settings,
            show_settings: false,
            remote_models: Seq::empty(),
            models: Seq::empty(),
            model_progress: None,
            download_help: None,
        },
        board: BoardView { jobs: Seq::empty(), job_tick: 0, show_jobs: false },
    }
}

impl UiState {
    /// The window at start: idle, on the live view, with nothing loaded.
    pub fn new(settings: Settings) -> (r: UiState)
        ensures
            r@ == blank_view(settings),
    {
        broadcast use vstd::std_specs::hash::group_hash_axioms;

        let rec = Recorder {
            status: Status::Idle,
            live_segments: Vec::new(),
            me_level: 0,
            others_level: 0,
            live_session_id: None,
            rec_secs: 0,
            mic_muted: false,
            sys_muted: false,
            recording_discord: false,
        };
        let pane = SessionPane {
            segments: Vec::new(),
            summary: None,
            compressed: None,
            notes: None,
            notes_draft: String::new(),
            summarizing: false,
            compressing: false,
            diarizing: false,
            retranscribing: false,
            diar_speakers: String::new(),
            diarize_est_secs: None,
            audio_files: AudioFiles::default(),
            me_speaker: None,
            playing_seg: None,
            speaker_names: HashMap::new(),
            last_export: None,
        };
        let line = TimelinePane {
            timeline_open: false,
            timeline_lanes: Vec::new(),
            timeline_pos: None,
            stats_open: false,
            session_stats: None,
        };
        let talk = ChatPane {
            chat: Vec::new(),
            chat_input: String::new(),
            chat_busy: false,
            chat_scope: None,
        };
        let shelf = Shelf {
            sessions: Vec::new(),
            session_badges: Vec::new(),
            selected_sessions: Vec::new(),
            select_anchor: None,
            voiceprints: Vec::new(),
            overview_doc: String::new(),
            overview_doc_updated: 0,
        };
        let seek = SearchPane {
            search_results: Vec::new(),
            note_results: Vec::new(),
            semantic_mode: false,
            search_query: String::new(),
            scroll_to_seg: None,
            highlight_seg: None,
            find_open: false,
            find_query: String::new(),
            find_active: 0,
            find_hits: Vec::new(),
        };
        let setup = SetupPane {
            settings,
            show_settings: false,
            remote_models: Vec::new(),
            models: Vec::new(),
            model_progress: None,
            download_help: None,
        };
        let board = Board { jobs: Vec::new(), job_tick: 0, show_jobs: false };
        assert(pane@ =~= blank_view(settings).pane);
        assert(talk@ =~= blank_view(settings).talk);
        assert(shelf@ =~= blank_view(settings).shelf);
        assert(seek@ =~= blank_view(settings).seek);
        UiState {
            notice: None,
            screen: Screen::Live,
            rec,
            pane,
            line,
            talk,
            shelf,
            seek,
            setup,
            board,
        }
    }
}

// ---------------------------------------------------------------------------
// Worker events
// ---------------------------------------------------------------------------

/// A session with this id is in the list.
pub open spec fn listed(sessions: Seq<Session>, id: Seq<char>) -> bool {
    exists|i: int| 0 <= i < sessions.len() && (#[trigger] sessions[i]).id@ == id
}

/// A job with this id is on the board.
pub open spec fn on_board(jobs: Seq<JobView>, id: Seq<char>) -> bool {
    exists|i: int| 0 <= i < jobs.len() && (#[trigger] jobs[i]).id@ == id
}

/// The board without this job.
pub open spec fn off_board(jobs: Seq<JobView>, id: Seq<char>) -> Seq<JobView> {
    jobs.filter(|j: JobView| j.id@ != id)
}

/// The conversation after a reply: a partial answer that is still streaming is
/// replaced, otherwise the reply is a turn of its own.
pub open spec fn with_reply(
    chat: Seq<(bool, Seq<char>)>,
    busy: bool,
    reply: Seq<char>,
) -> Seq<(bool, Seq<char>)> {
    if chat.len() > 0 && !chat.last().0 && busy {
        chat.update(chat.len() - 1, (false, reply))
    } else {
        chat.push((false, reply))
    }
}

/// The conversation after one streamed piece of an answer.
pub open spec fn with_delta(chat: Seq<(bool, Seq<char>)>, delta: Seq<char>) -> Seq<
    (bool, Seq<char>),
> {
    if chat.len() > 0 && !chat.last().0 {
        chat.update(chat.len() - 1, (false, chat.last().1 + delta))
    } else {
        chat.push((false, delta))
    }
}

/// The open conversation is this one.
pub open spec fn chat_open(s: UiView, scope: ChatScope) -> bool {
    s.talk.chat_scope matches Some(cur) && cur.same_as(scope)
}

/// A recording ends with this status.
pub open spec fn finishes(s: UiView, next: Status) -> bool {
    s.rec.status is Recording && next is Idle
}

/// The session that the window moves to when a recording ends: the one just
/// recorded, and only if the live view is on screen.
pub open spec fn follow(s: UiView, next: Status) -> Option<String> {
    if finishes(s, next) && s.screen is Live {
        s.rec.live_session_id
    } else {
        None
    }
}

/// The server answered, no model is chosen yet, and it offers one.
pub open spec fn picks_model(s: UiView, models: Seq<String>, error: Option<String>) -> bool {
    error is None && crate::text::is_blank(s.setup.settings.llm_model@) && models.len() > 0
}

/// The state after a change of status.
pub open spec fn after_status(s: UiView, next: Status) -> UiView {
    UiView { rec: RecorderView { status: next, live_session_id: if finishes(s, next) {
                None
            } else {
                s.rec.live_session_id
            }, ..s.rec }, screen: match follow(s, next) {
                Some(id) => Screen::Session(id),
                None => s.screen,
            }, ..s }
}

/// The state after a finished answer.
pub open spec fn after_reply(s: UiView, scope: ChatScope, reply: Seq<char>) -> UiView {
    UiView { talk: ChatPaneView { chat: if chat_open(s, scope) {
                with_reply(s.talk.chat, s.talk.chat_busy, reply)
            } else {
                s.talk.chat
            }, chat_busy: false, ..s.talk }, ..s }
}

/// The state after one streamed piece of an answer.
pub open spec fn after_delta(s: UiView, scope: ChatScope, delta: Seq<char>) -> UiView {
    if chat_open(s, scope) && s.talk.chat_busy {
            UiView { talk: ChatPaneView { chat: with_delta(s.talk.chat, delta), ..s.talk }, ..s }
        } else {
            s
        }
}

/// The state after the external server answered.
pub open spec fn after_models(s: UiView, models: Seq<String>, error: Option<String>) -> UiView {
    UiView { notice: Some(
                match error {
                    Some(e) => "External LLM: "@ + e@,
                    None => "Connected — "@ + decimal(models.len()) + " model(s) available."@,
                },
            ), setup: SetupPaneView { settings: if picks_model(s, models, error) {
                Settings { llm_model: models[0], ..s.setup.settings }
            } else {
                s.setup.settings
            }, remote_models: models, ..s.setup }, ..s }
}

/// The state after a worker event.
pub open spec fn reduce(s: UiView, ev: Event, now: u64) -> UiView {
    match ev {
        Event::Status(next) => after_status(s, next),
        Event::Notice(n) => UiView { notice: Some(n@), ..s },
        Event::Segment(seg) => UiView {
            rec: RecorderView { live_segments: s.rec.live_segments.push(seg), ..s.rec },
            ..s
        },
        Event::Level { source, level } => s,
        Event::Sessions(v) => UiView {
            shelf: ShelfView {
                selected_sessions: s.shelf.selected_sessions.filter(|id: String| listed(v@, id@)),
                sessions: v@,
                ..s.shelf
            },
            ..s
        },
        Event::SessionBadges(b) => UiView {
            shelf: ShelfView { session_badges: b@, ..s.shelf },
            ..s
        },
        Event::SearchResults(v) => UiView {
            seek: SearchPaneView { search_results: v@, ..s.seek },
            ..s
        },
        Event::Transcript { id, segments } => if s.screen.shows(id@) {
            UiView { pane: SessionPaneView { segments: segments@, ..s.pane }, ..s }
        } else {
            s
        },
        Event::Exported(p) => UiView {
            notice: Some("Exported to "@ + p@),
            pane: SessionPaneView { last_export: Some(p), ..s.pane },
            ..s
        },
        Event::Models(v) => UiView {
            setup: SetupPaneView { models: v@, model_progress: None, ..s.setup },
            ..s
        },
        Event::ModelProgress { name, pct } => UiView {
            setup: SetupPaneView { model_progress: Some((name, pct)), ..s.setup },
            ..s
        },
        Event::DownloadFailed { name } => UiView {
            setup: SetupPaneView { model_progress: None, download_help: Some(name), ..s.setup },
            ..s
        },
        Event::Summary(v) => UiView {
            pane: SessionPaneView { summary: v, summarizing: false, ..s.pane },
            ..s
        },
        Event::Compressed(v) => UiView {
            pane: SessionPaneView { compressed: v, compressing: false, ..s.pane },
            ..s
        },
        Event::SessionStarted(id) => UiView {
            rec: RecorderView { live_session_id: Some(id), ..s.rec },
            pane: SessionPaneView { notes_draft: Seq::empty(), notes: None, ..s.pane },
            ..s
        },
        Event::Notes(v) => UiView { pane: SessionPaneView { notes_draft: match v {
                Some(t) => t@,
                None => Seq::empty(),
            }, notes: v, ..s.pane }, ..s },
        Event::NoteResults(v) => UiView {
            seek: SearchPaneView { note_results: v@, ..s.seek },
            ..s
        },
        Event::OverviewDoc { markdown, updated_at } => UiView {
            shelf: ShelfView {
                overview_doc: markdown@,
                overview_doc_updated: updated_at,
                ..s.shelf
            },
            ..s
        },
        Event::ChatReply { scope, reply } => after_reply(s, scope, reply@),
        Event::ChatDelta { scope, delta } => after_delta(s, scope, delta@),
        Event::Speakers(v) => UiView { pane: SessionPaneView { speaker_names: v@, ..s.pane }, ..s },
        Event::Diarized { id, speakers } => UiView {
            pane: SessionPaneView {
                diarizing: false,
                diarize_est_secs: None,
                speaker_names: if s.screen.shows(id@) {
                    speakers@
                } else {
                    s.pane.speaker_names
                },
                ..s.pane
            },
            ..s
        },
        Event::DiarizeSpeakers(n) => UiView {
            pane: SessionPaneView {
                diar_speakers: if n > 0 {
                    decimal(n as nat)
                } else {
                    Seq::empty()
                },
                ..s.pane
            },
            ..s
        },
        Event::AudioFiles(af) => UiView {
            pane: SessionPaneView { audio_files: af@, ..s.pane },
            ..s
        },
        Event::MeSpeaker(idx) => UiView {
            pane: SessionPaneView { me_speaker: idx, ..s.pane },
            ..s
        },
        Event::Playing(v) => UiView { pane: SessionPaneView { playing_seg: v, ..s.pane }, ..s },
        Event::RemoteModels { models, error } => after_models(s, models@, error),
        Event::Retranscribing => UiView {
            pane: SessionPaneView { retranscribing: true, ..s.pane },
            ..s
        },
        Event::Retranscribed => UiView {
            pane: SessionPaneView { retranscribing: false, ..s.pane },
            ..s
        },
        Event::JobStarted { id, kind, label } => if on_board(s.board.jobs, id@) {
            s
        } else {
            UiView {
                board: BoardView {
                    jobs: s.board.jobs.push(JobView { id, kind, label, started_at: now }),
                    ..s.board
                },
                ..s
            }
        },
        Event::JobFinished { id } => UiView {
            board: BoardView { jobs: off_board(s.board.jobs, id@), ..s.board },
            ..s
        },
        Event::Voiceprints(v) => UiView { shelf: ShelfView { voiceprints: v@, ..s.shelf }, ..s },
        Event::Timeline { id, lanes } => if s.screen.shows(id@) {
            UiView { line: TimelinePaneView { timeline_lanes: lanes@, ..s.line }, ..s }
        } else {
            s
        },
        Event::TimelinePos { ms } => UiView {
            line: TimelinePaneView { timeline_pos: ms, ..s.line },
            ..s
        },
        Event::Stats { id, stats } => if s.screen.shows(id@) {
            UiView { line: TimelinePaneView { session_stats: Some(stats), ..s.line }, ..s }
        } else {
            s
        },
        Event::Bookmarks { id, items } => s,
        Event::Profile(p) => s,
        Event::Moments { id, items } => s,
    }
}

/// What a worker event makes the window send.
pub open spec fn replies(s: UiView, ev: Event) -> Seq<Outgoing> {
    match ev {
        Event::Status(next) => match follow(s, next) {
            Some(id) => seq![Outgoing::Db(DbCmd::Load(id))],
            None => seq![],
        },
        Event::RemoteModels { models, error } => if picks_model(s, models@, error) {
            seq![Outgoing::SaveSettings]
        } else {
            seq![]
        },
        _ => seq![],
    }
}

/// Events about the session on screen.
pub open spec fn of_session(ev: Event) -> bool {
    ||| ev is Summary
    ||| ev is Compressed
    ||| ev is Notes
    ||| ev is Speakers
    ||| ev is Diarized
    ||| ev is DiarizeSpeakers
    ||| ev is AudioFiles
    ||| ev is MeSpeaker
    ||| ev is Playing
    ||| ev is Retranscribing
    ||| ev is Retranscribed
    ||| ev is Transcript
}

/// Events about lists, models, jobs and the timeline.
pub open spec fn of_lists(ev: Event) -> bool {
    ||| ev is Sessions
    ||| ev is SessionBadges
    ||| ev is SearchResults
    ||| ev is NoteResults
    ||| ev is Voiceprints
    ||| ev is OverviewDoc
    ||| ev is Models
    ||| ev is ModelProgress
    ||| ev is DownloadFailed
    ||| ev is JobStarted
    ||| ev is JobFinished
    ||| ev is Timeline
    ||| ev is TimelinePos
    ||| ev is Stats
}

fn in_list(sessions: &Vec<Session>, id: &String) -> (r: bool)
    ensures
        r == listed(sessions@, id@),
{
    let mut k: usize = 0;
    while k < sessions.len()
        invariant
            k <= sessions@.len(),
            forall|j: int| 0 <= j < k ==> (#[trigger] sessions@[j]).id@ != id@,
        decreases sessions@.len() - k,
    {
        if sessions[k].id == *id {
            return true;
        }
        k += 1;
    }
    false
}

fn keep_listed(ids: &Vec<String>, sessions: &Vec<Session>) -> (r: Vec<String>)
    ensures
        r@ == ids@.filter(|id: String| listed(sessions@, id@)),
{
    let ghost p = |id: String| listed(sessions@, id@);
    let mut r: Vec<String> = Vec::new();
    let mut i: usize = 0;
    while i < ids.len()
        invariant
            i <= ids@.len(),
            p == (|id: String| listed(sessions@, id@)),
            r@ == ids@.take(i as int).filter(p),
        decreases ids@.len() - i,
    {
        let found = in_list(sessions, &ids[i]);
        proof {
            reveal(Seq::filter);
            assert(ids@.take(i + 1).drop_last() =~= ids@.take(i as int));
            assert(found == p(ids@[i as int]));
        }
        if found {
            r.push(ids[i].clone());
        }
        i += 1;
    }
    assert(ids@.take(i as int) =~= ids@);
    r
}

/// Drops a job from the board.
pub(crate) fn drop_job(jobs: &mut Vec<JobView>, id: &String)
    ensures
        final(jobs)@ == off_board(old(jobs)@, id@),
{
    let ghost p = |j: JobView| j.id@ != id@;
    let ghost all = old(jobs)@;
    let mut i: usize = 0;
    assert(all.skip(0) =~= all);
    assert(all.take(0).filter(p) =~= Seq::empty()) by {
        reveal(Seq::filter);
    }
    let mut seen: Ghost<int> = Ghost(0);
    while i < jobs.len()
        invariant
            p == (|j: JobView| j.id@ != id@),
            i <= jobs@.len(),
            0 <= seen@ <= all.len(),
            jobs@ == all.take(seen@).filter(p) + all.skip(seen@),
            i == all.take(seen@).filter(p).len(),
        decreases jobs@.len() - i,
    {
        let ghost front = all.take(seen@).filter(p);
        proof {
            reveal(Seq::filter);
            assert(all.take(seen@ + 1).drop_last() =~= all.take(seen@));
            assert(jobs@[i as int] == all[seen@]);
            assert(all.skip(seen@)[0] == all[seen@]);
            assert(all.skip(seen@).skip(1) =~= all.skip(seen@ + 1));
        }
        if jobs[i].id == *id {
            jobs.remove(i);
            assert(jobs@ =~= front + all.skip(seen@ + 1));
        } else {
            i += 1;
            assert(jobs@ =~= front.push(all[seen@]) + all.skip(seen@ + 1));
        }
        proof {
            seen@ = seen@ + 1;
        }
    }
    assert(all.take(all.len() as int) =~= all);
    assert(jobs@ =~= all.filter(p));
}

impl UiState {
    fn is_open(&self, scope: &ChatScope) -> (r: bool)
        ensures
            r == chat_open(self@, *scope),
    {
        match &self.talk.chat_scope {
            Some(cur) => cur.same(scope),
            None => false,
        }
    }

    fn board_has(&self, id: &String) -> (r: bool)
        ensures
            r == on_board(self.board.jobs@, id@),
    {
        let mut i: usize = 0;
        while i < self.board.jobs.len()
            invariant
                i <= self.board.jobs@.len(),
                forall|j: int| 0 <= j < i ==> (#[trigger] self.board.jobs@[j]).id@ != id@,
            decreases self.board.jobs@.len() - i,
        {
            if self.board.jobs[i].id == *id {
                return true;
            }
            i += 1;
        }
        false
    }

    fn on_status(&mut self, next: Status) -> (out: Vec<Outgoing>)
        ensures
            final(self)@ == after_status(old(self)@, next),
            out@ == replies(old(self)@, Event::Status(next)),
    {
        let mut out: Vec<Outgoing> = Vec::new();
        let finished = match (&self.rec.status, &next) {
            (Status::Recording, Status::Idle) => true,
            _ => false,
        };
        self.rec.status = next;
        if finished {
            let live = match &self.screen {
                Screen::Live => true,
                _ => false,
            };
            if live {
                if let Some(id) = &self.rec.live_session_id {
                    let id = id.clone();
                    out.push(Outgoing::Db(DbCmd::Load(id.clone())));
                    self.screen = Screen::Session(id);
                }
            }
            self.rec.live_session_id = None;
        }
        out
    }

    fn on_reply(&mut self, scope: ChatScope, reply: String)
        ensures
            final(self)@ == after_reply(old(self)@, scope, reply@),
    {
        if self.is_open(&scope) {
            let n: usize = self.talk.chat.len();
            let ghost before = turns(self.talk.chat@);
            if n > 0 && !self.talk.chat[n - 1].0 && self.talk.chat_busy {
                let ghost was = self.talk.chat@;
                let _ = self.talk.chat.pop();
                self.talk.chat.push((false, reply));
                assert(turns(self.talk.chat@) =~= before.update(before.len() - 1, (false, reply@)));
            } else {
                self.talk.chat.push((false, reply));
                assert(turns(self.talk.chat@) =~= before.push((false, reply@)));
            }
        }
        self.talk.chat_busy = false;
    }

    fn on_delta(&mut self, scope: ChatScope, delta: String)
        ensures
            final(self)@ == after_delta(old(self)@, scope, delta@),
    {
        if self.is_open(&scope) && self.talk.chat_busy {
            let n: usize = self.talk.chat.len();
            let ghost before = turns(self.talk.chat@);
            if n > 0 && !self.talk.chat[n - 1].0 {
                let mut text = self.talk.chat[n - 1].1.clone();
                assert(text@ == before.last().1);
                text.push_str(&delta);
                let _ = self.talk.chat.pop();
                self.talk.chat.push((false, text));
                assert(turns(self.talk.chat@) =~= before.update(
                    before.len() - 1,
                    (false, before.last().1 + delta@),
                ));
            } else {
                self.talk.chat.push((false, delta));
                assert(turns(self.talk.chat@) =~= before.push((false, delta@)));
            }
        }
    }

    fn on_remote_models(&mut self, models: Vec<String>, error: Option<String>) -> (out: Vec<
        Outgoing,
    >)
        ensures
            final(self)@ == after_models(old(self)@, models@, error),
            out@ == replies(old(self)@, (Event::RemoteModels { models, error })),
    {
        let mut out: Vec<Outgoing> = Vec::new();
        match &error {
            Some(e) => {
                let mut n = "External LLM: ".to_string();
                n.push_str(e);
                self.notice = Some(n);
            },
            None => {
                let mut n = "Connected — ".to_string();
                n.push_str(&write_u64(models.len() as u64));
                n.push_str(" model(s) available.");
                self.notice = Some(n);
                if crate::text::blank(&self.setup.settings.llm_model) && models.len() > 0 {
                    self.setup.settings.choose_llm_model(&models[0]);
                    out.push(Outgoing::SaveSettings);
                }
            },
        }
        self.setup.remote_models = models;
        out
    }

    fn apply_session(&mut self, ev: Event)
        requires
            of_session(ev),
        ensures
            final(self)@ == reduce(old(self)@, ev, 0),
    {
        match ev {
            Event::Summary(v) => {
                self.pane.summary = v;
                self.pane.summarizing = false;
            },
            Event::Compressed(v) => {
                self.pane.compressed = v;
                self.pane.compressing = false;
            },
            Event::Notes(v) => {
                self.pane.notes_draft = match &v {
                    Some(t) => t.clone(),
                    None => String::new(),
                };
                self.pane.notes = v;
            },
            Event::Speakers(v) => {
                self.pane.speaker_names = v;
            },
            Event::Diarized { id, speakers } => {
                self.pane.diarizing = false;
                self.pane.diarize_est_secs = None;
                if self.screen.is_session(&id) {
                    self.pane.speaker_names = speakers;
                }
            },
            Event::DiarizeSpeakers(n) => {
                self.pane.diar_speakers = if n > 0 {
                    write_u64(n as u64)
                } else {
                    String::new()
                };
            },
            Event::AudioFiles(af) => {
                self.pane.audio_files = af;
            },
            Event::MeSpeaker(idx) => {
                self.pane.me_speaker = idx;
            },
            Event::Playing(v) => {
                self.pane.playing_seg = v;
            },
            Event::Retranscribing => {
                self.pane.retranscribing = true;
            },
            Event::Retranscribed => {
                self.pane.retranscribing = false;
            },
            Event::Transcript { id, segments } => {
                if self.screen.is_session(&id) {
                    self.pane.segments = segments;
                }
            },
            _ => {},
        }
    }

    fn apply_lists(&mut self, ev: Event, now: u64)
        requires
            of_lists(ev),
        ensures
            final(self)@ == reduce(old(self)@, ev, now),
    {
        match ev {
            Event::Sessions(v) => {
                self.shelf.selected_sessions = keep_listed(&self.shelf.selected_sessions, &v);
                self.shelf.sessions = v;
            },
            Event::SessionBadges(b) => {
                self.shelf.session_badges = b;
            },
            Event::SearchResults(v) => {
                self.seek.search_results = v;
            },
            Event::NoteResults(v) => {
                self.seek.note_results = v;
            },
            Event::Voiceprints(v) => {
                self.shelf.voiceprints = v;
            },
            Event::OverviewDoc { markdown, updated_at } => {
                self.shelf.overview_doc = markdown;
                self.shelf.overview_doc_updated = updated_at;
            },
            Event::Models(v) => {
                self.setup.models = v;
                self.setup.model_progress = None;
            },
            Event::ModelProgress { name, pct } => {
                self.setup.model_progress = Some((name, pct));
            },
            Event::DownloadFailed { name } => {
                self.setup.model_progress = None;
                self.setup.download_help = Some(name);
            },
            Event::JobStarted { id, kind, label } => {
                if !self.board_has(&id) {
                    self.board.jobs.push(JobView { id, kind, label, started_at: now });
                }
            },
            Event::JobFinished { id } => {
                drop_job(&mut self.board.jobs, &id);
            },
            Event::Timeline { id, lanes } => {
                if self.screen.is_session(&id) {
                    self.line.timeline_lanes = lanes;
                }
            },
            Event::TimelinePos { ms } => {
                self.line.timeline_pos = ms;
            },
            Event::Stats { id, stats } => {
                if self.screen.is_session(&id) {
                    self.line.session_stats = Some(stats);
                }
            },
            _ => {},
        }
    }

    /// Applies a worker event and says what it makes the window send. Levels are
    /// left to [`UiState::set_levels`].
    pub fn apply(&mut self, ev: Event, now: u64) -> (out: Vec<Outgoing>)
        ensures
            final(self)@ == reduce(old(self)@, ev, now),
            out@ == replies(old(self)@, ev),
    {
        match ev {
            Event::Status(next) => {
                return self.on_status(next);
            },
            Event::RemoteModels { models, error } => {
                return self.on_remote_models(models, error);
            },
            Event::ChatReply { scope, reply } => {
                self.on_reply(scope, reply);
            },
            Event::ChatDelta { scope, delta } => {
                self.on_delta(scope, delta);
            },
            Event::Notice(n) => {
                self.notice = Some(n);
            },
            Event::Segment(seg) => {
                self.rec.live_segments.push(seg);
            },
            Event::Exported(p) => {
                let mut n = "Exported to ".to_string();
                n.push_str(&p);
                self.notice = Some(n);
                self.pane.last_export = Some(p);
            },
            Event::SessionStarted(id) => {
                self.rec.live_session_id = Some(id);
                self.pane.notes_draft = String::new();
                self.pane.notes = None;
            },
            Event::Level { source: _, level: _ } => {},
            Event::Bookmarks { id: _, items: _ } => {},
            Event::Profile(_) => {},
            Event::Moments { id: _, items: _ } => {},
            Event::Summary(_)
            | Event::Compressed(_)
            | Event::Notes(_)
            | Event::Speakers(_)
            | Event::Diarized { .. }
            | Event::DiarizeSpeakers(_)
            | Event::AudioFiles(_)
            | Event::MeSpeaker(_)
            | Event::Playing(_)
            | Event::Retranscribing
            | Event::Retranscribed
            | Event::Transcript { .. } => {
                self.apply_session(ev);
            },
            _ => {
                self.apply_lists(ev, now);
            },
        }
        Vec::new()
    }
}

// ---------------------------------------------------------------------------
// What holds of every event
// ---------------------------------------------------------------------------

/// The window never leaves a session, the search, the overview or the speakers
/// on its own: only the end of a recording moves it, only from the live view,
/// and only into the session just recorded.
pub proof fn view_is_never_yanked(s: UiView, ev: Event, now: u64)
    ensures
        reduce(s, ev, now).screen != s.screen ==> {
            &&& s.screen is Live
            &&& ev matches Event::Status(next)
            &&& finishes(s, next)
            &&& s.rec.live_session_id matches Some(id)
            &&& reduce(s, ev, now).screen == Screen::Session(id)
            &&& replies(s, ev) == seq![Outgoing::Db(DbCmd::Load(id))]
        },
{
}

/// A transcript, a timeline or analytics of this session.
pub open spec fn for_session(ev: Event, id: Seq<char>) -> bool {
    match ev {
        Event::Transcript { id: x, segments } => x@ == id,
        Event::Timeline { id: x, lanes } => x@ == id,
        Event::Stats { id: x, stats } => x@ == id,
        _ => false,
    }
}

/// Results for a session that is not on screen leave the window as it is.
pub proof fn other_sessions_do_not_show(s: UiView, ev: Event, now: u64, id: String)
    requires
        !s.screen.shows(id@),
        for_session(ev, id@),
    ensures
        reduce(s, ev, now) == s,
        replies(s, ev).len() == 0,
{
}

/// The end of a diarization always clears its busy mark; its names show only if
/// its session is on screen.
pub proof fn diarized_always_clears(s: UiView, id: String, speakers: HashMap<i32, String>, now: u64)
    ensures
        ({
            let t = reduce(s, (Event::Diarized { id, speakers }), now);
            &&& !t.pane.diarizing
            &&& t.pane.diarize_est_secs is None
            &&& t.pane.speaker_names == if s.screen.shows(id@) {
                speakers@
            } else {
                s.pane.speaker_names
            }
        }),
{
}

/// Loading speaker names never touches the busy mark of a diarization.
pub proof fn speakers_keep_the_busy_mark(s: UiView, names: HashMap<i32, String>, now: u64)
    ensures
        reduce(s, Event::Speakers(names), now).pane.diarizing == s.pane.diarizing,
        reduce(s, Event::Speakers(names), now).pane.diarize_est_secs == s.pane.diarize_est_secs,
{
}

/// The lines of the running recording only ever grow: no event drops one.
pub proof fn live_lines_are_kept(s: UiView, ev: Event, now: u64)
    ensures
        s.rec.live_segments.is_prefix_of(reduce(s, ev, now).rec.live_segments),
{
    if let Event::Segment(seg) = ev {
        assert(s.rec.live_segments.push(seg).subrange(0, s.rec.live_segments.len() as int)
            =~= s.rec.live_segments);
    }
}

/// The ids on the board differ.
pub open spec fn board_distinct(jobs: Seq<JobView>) -> bool {
    forall|i: int, j: int|
        #![trigger jobs[i], jobs[j]]
        0 <= i < j < jobs.len() ==> jobs[i].id@ != jobs[j].id@
}

proof fn lemma_off_board(jobs: Seq<JobView>, id: Seq<char>)
    ensures
        board_distinct(jobs) ==> board_distinct(off_board(jobs, id)),
        forall|i: int| 0 <= i < off_board(jobs, id).len() ==> on_board(
            jobs,
            (#[trigger] off_board(jobs, id)[i]).id@,
        ) && off_board(jobs, id)[i].id@ != id,
    decreases jobs.len(),
{
    reveal(Seq::filter);
    let r = off_board(jobs, id);
    if jobs.len() > 0 {
        let h = jobs.drop_last();
        let p = off_board(h, id);
        lemma_off_board(h, id);
        assert forall|i: int| 0 <= i < r.len() implies on_board(jobs, (#[trigger] r[i]).id@)
            && r[i].id@ != id by {
            if i < p.len() {
                assert(r[i] == p[i]);
                assert(on_board(h, p[i].id@));
                let k = choose|k: int| 0 <= k < h.len() && (#[trigger] h[k]).id@ == p[i].id@;
                assert(jobs[k].id@ == r[i].id@);
            } else {
                assert(jobs[jobs.len() - 1].id@ == r[i].id@);
            }
        }
        if board_distinct(jobs) {
            assert(board_distinct(h)) by {
                assert forall|i: int, j: int|
                    #![trigger h[i], h[j]]
                    0 <= i < j < h.len() implies h[i].id@ != h[j].id@ by {
                    assert(jobs[i].id@ != jobs[j].id@);
                }
            }
            assert forall|i: int, j: int|
                #![trigger r[i], r[j]]
                0 <= i < j < r.len() implies r[i].id@ != r[j].id@ by {
                if j < p.len() {
                    assert(r[i] == p[i] && r[j] == p[j]);
                } else {
                    assert(r[i] == p[i]);
                    assert(on_board(h, p[i].id@));
                    let k = choose|k: int| 0 <= k < h.len() && (#[trigger] h[k]).id@ == p[i].id@;
                    assert(jobs[k].id@ != jobs[jobs.len() - 1].id@);
                }
            }
        }
    }
}

/// A job stands on the board once, whatever happens; once it is reported
/// finished it is off.
pub proof fn board_keeps_jobs_once(s: UiView, ev: Event, now: u64)
    requires
        board_distinct(s.board.jobs),
    ensures
        board_distinct(reduce(s, ev, now).board.jobs),
        ev matches Event::JobFinished { id } ==> !on_board(
            reduce(s, ev, now).board.jobs,
            id@,
        ),
        ev matches Event::JobStarted { id, .. } ==> on_board(
            reduce(s, ev, now).board.jobs,
            id@,
        ),
{
    match ev {
        Event::JobFinished { id } => {
            lemma_off_board(s.board.jobs, id@);
        },
        Event::JobStarted { id, kind, label } => {
            let t = reduce(s, ev, now).board.jobs;
            if !on_board(s.board.jobs, id@) {
                assert(t[t.len() - 1].id@ == id@);
                assert forall|i: int, j: int|
                    #![trigger t[i], t[j]]
                    0 <= i < j < t.len() implies t[i].id@ != t[j].id@ by {
                    assert(t[i] == s.board.jobs[i]);
                    if j < t.len() - 1 {
                        assert(t[j] == s.board.jobs[j]);
                    }
                }
            }
        },
        _ => {},
    }
}

/// After a new session list only sessions of that list are selected.
pub proof fn selection_stays_listed(s: UiView, v: Vec<Session>, now: u64)
    ensures
        forall|i: int|
            0 <= i < reduce(s, Event::Sessions(v), now).shelf.selected_sessions.len() ==> listed(
                v@,
                (#[trigger] reduce(s, Event::Sessions(v), now).shelf.selected_sessions[i])@,
            ),
{
    let p = |id: String| listed(v@, id@);
    broadcast use vstd::seq_lib::group_filter_ensures;
}

// ---------------------------------------------------------------------------
// Where events show
// ---------------------------------------------------------------------------

/// Only the recorder's own events touch the recorder, and only messages the notice.
pub proof fn the_recorder_shows_its_events(s: UiView, ev: Event, now: u64)
    ensures
        !(ev is Status || ev is Segment || ev is SessionStarted) ==> reduce(s, ev, now).rec == s.rec,
        !(ev is Notice || ev is Exported || ev is RemoteModels) ==> reduce(s, ev, now).notice
            == s.notice,
{
}

/// The lists change by the events about them alone.
pub proof fn lists_show_their_events(s: UiView, ev: Event, now: u64)
    ensures
        !(ev is Sessions || ev is SessionBadges || ev is OverviewDoc || ev is Voiceprints) ==> reduce(
            s,
            ev,
            now,
        ).shelf == s.shelf,
        !(ev is SearchResults || ev is NoteResults) ==> reduce(s, ev, now).seek == s.seek,
        !(ev is JobStarted || ev is JobFinished) ==> reduce(s, ev, now).board == s.board,
{
}

/// The settings page, the conversation, the timeline and the session's pane change by
/// the events about them alone.
pub proof fn panes_show_their_events(s: UiView, ev: Event, now: u64)
    ensures
        !(ev is Models || ev is ModelProgress || ev is DownloadFailed || ev is RemoteModels)
            ==> reduce(s, ev, now).setup == s.setup,
        !(ev is ChatReply || ev is ChatDelta) ==> reduce(s, ev, now).talk == s.talk,
        !(ev is Timeline || ev is TimelinePos || ev is Stats) ==> reduce(s, ev, now).line == s.line,
        !(of_session(ev) || ev is Exported || ev is SessionStarted) ==> reduce(s, ev, now).pane
            == s.pane,
{
}

/// What arrives for the session on screen is shown as it came.
pub proof fn arrivals_for_the_screen_show(
    s: UiView,
    id: String,
    segments: Vec<Segment>,
    lanes: Vec<crate::model::TimelineLane>,
    stats: crate::model::SessionStats,
    now: u64,
)
    requires
        s.screen.shows(id@),
    ensures
        reduce(s, (Event::Transcript { id, segments }), now).pane.segments == segments@,
        reduce(s, (Event::Timeline { id, lanes }), now).line.timeline_lanes == lanes@,
        reduce(s, (Event::Stats { id, stats }), now).line.session_stats == Some(stats),
{
}

/// A result for the pane is shown, and ends the busy mark of what made it.
pub proof fn results_end_their_work(
    s: UiView,
    v: Option<String>,
    id: String,
    seg: Segment,
    n: i32,
    now: u64,
)
    ensures
        reduce(s, Event::Summary(v), now).pane.summary == v,
        !reduce(s, Event::Summary(v), now).pane.summarizing,
        reduce(s, Event::Summary(v), now).pane.compressing == s.pane.compressing,
        reduce(s, Event::Compressed(v), now).pane.compressed == v,
        !reduce(s, Event::Compressed(v), now).pane.compressing,
        reduce(s, Event::Compressed(v), now).pane.summarizing == s.pane.summarizing,
        reduce(s, Event::Retranscribing, now).pane.retranscribing,
        !reduce(s, Event::Retranscribed, now).pane.retranscribing,
        reduce(s, Event::Notes(v), now).pane.notes == v,
        v is Some ==> reduce(s, Event::Notes(v), now).pane.notes_draft == v->0@,
        v is None ==> reduce(s, Event::Notes(v), now).pane.notes_draft.len() == 0,
        reduce(s, Event::SessionStarted(id), now).rec.live_session_id == Some(id),
        reduce(s, Event::SessionStarted(id), now).pane.notes is None,
        reduce(s, Event::SessionStarted(id), now).pane.notes_draft.len() == 0,
        reduce(s, Event::Segment(seg), now).rec.live_segments == s.rec.live_segments + seq![seg],
{
    assert(s.rec.live_segments.push(seg) =~= s.rec.live_segments + seq![seg]);
}

/// A count of speakers shows as its number, and none as an empty field.
pub proof fn speaker_counts_show_as_numbers(s: UiView, n: u32, now: u64)
    ensures
        n > 0 ==> reduce(s, Event::DiarizeSpeakers(n), now).pane.diar_speakers
            == crate::number::signed(n as int),
        n == 0 ==> reduce(s, Event::DiarizeSpeakers(n), now).pane.diar_speakers.len() == 0,
{
}

/// The status shown is the one that came. A recording's id is held until it ends.
pub proof fn the_status_is_shown(s: UiView, next: Status, now: u64)
    ensures
        reduce(s, Event::Status(next), now).rec.status == next,
        !(s.rec.status is Recording && next is Idle) ==> reduce(
            s,
            Event::Status(next),
            now,
        ).rec.live_session_id == s.rec.live_session_id && replies(s, Event::Status(next)).len() == 0,
        s.rec.status is Recording && next is Idle ==> reduce(
            s,
            Event::Status(next),
            now,
        ).rec.live_session_id is None,
        s.rec.status is Recording && next is Idle && s.screen is Live
            && s.rec.live_session_id is Some ==> reduce(s, Event::Status(next), now).screen
            == Screen::Session(s.rec.live_session_id->0),
        reduce(s, Event::Status(next), now).rec.live_segments == s.rec.live_segments,
{
}

/// An answer streams in piece by piece: pieces add up, the finished answer takes their
/// place, and what the user wrote stays as it is.
pub proof fn answers_stream_in(
    chat: Seq<(bool, Seq<char>)>,
    a: Seq<char>,
    b: Seq<char>,
    reply: Seq<char>,
    i: int,
)
    ensures
        with_delta(with_delta(chat, a), b) == with_delta(chat, a + b),
        with_reply(with_delta(chat, a), true, reply) == with_reply(chat, true, reply),
        with_delta(chat, a).last().0 == false && with_reply(chat, true, reply).last() == (
            false,
            reply,
        ),
        with_reply(chat, false, reply) == chat + seq![(false, reply)],
        0 <= i < chat.len() && chat[i].0 ==> with_delta(chat, a)[i] == chat[i] && with_reply(
            chat,
            true,
            reply,
        )[i] == chat[i],
        chat.len() == 0 || chat.last().0 ==> with_delta(chat, a) == chat + seq![(false, a)],
{
    let p = with_delta(chat, a);
    if chat.len() > 0 && !chat.last().0 {
        assert(chat.last().1 + a + b =~= chat.last().1 + (a + b));
    }
    assert(with_delta(p, b) =~= with_delta(chat, a + b));
    assert(with_reply(p, true, reply) =~= with_reply(chat, true, reply));
    assert(with_reply(chat, false, reply) =~= chat + seq![(false, reply)]);
    if chat.len() == 0 || chat.last().0 {
        assert(p =~= chat + seq![(false, a)]);
    }
}

/// An answer goes into the conversation that asked, and into no other; it ends the wait.
pub proof fn answers_go_where_they_were_asked(
    s: UiView,
    scope: ChatScope,
    reply: String,
    delta: String,
    now: u64,
)
    ensures
        !reduce(s, (Event::ChatReply { scope, reply }), now).talk.chat_busy,
        s.talk.chat_scope is None ==> reduce(s, (Event::ChatReply { scope, reply }), now).talk.chat
            == s.talk.chat && reduce(s, (Event::ChatDelta { scope, delta }), now) == s,
        s.talk.chat_scope is Some && !s.talk.chat_scope->0.same_as(scope) ==> reduce(
            s,
            (Event::ChatReply { scope, reply }),
            now,
        ).talk.chat == s.talk.chat && reduce(s, (Event::ChatDelta { scope, delta }), now) == s,
        s.talk.chat_scope is Some && s.talk.chat_scope->0.same_as(scope) ==> {
            &&& reduce(s, (Event::ChatReply { scope, reply }), now).talk.chat.last() == (
                false,
                reply@,
            )
            &&& s.talk.chat_busy ==> reduce(s, (Event::ChatDelta { scope, delta }), now).talk.chat
                == with_delta(s.talk.chat, delta@)
            &&& !s.talk.chat_busy ==> reduce(s, (Event::ChatDelta { scope, delta }), now) == s
        },
        reduce(s, (Event::ChatDelta { scope, delta }), now).talk.chat_busy == s.talk.chat_busy,
        reduce(s, (Event::ChatReply { scope, reply }), now).talk.chat_input == s.talk.chat_input,
{
}

/// A started job is put at the end of the board with the time it started; a finished one
/// goes, and every other job stays.
pub proof fn other_jobs_stay_on_the_board(
    s: UiView,
    id: String,
    kind: String,
    label: String,
    now: u64,
    j: JobView,
)
    ensures
        !on_board(s.board.jobs, id@) ==> reduce(
            s,
            (Event::JobStarted { id, kind, label }),
            now,
        ).board.jobs == s.board.jobs + seq![(JobView { id, kind, label, started_at: now })],
        on_board(s.board.jobs, id@) ==> reduce(
            s,
            (Event::JobStarted { id, kind, label }),
            now,
        ).board.jobs == s.board.jobs,
        reduce(s, (Event::JobFinished { id }), now).board.jobs.contains(j) <==> s.board.jobs.contains(
            j,
        ) && j.id@ != id@,
{
    let jobs = s.board.jobs;
    let x = JobView { id, kind, label, started_at: now };
    assert(jobs.push(x) =~= jobs + seq![x]);
    let p = |k: JobView| k.id@ != id@;
    lemma_filter_has(jobs, p, j);
}

/// A new session list is the one that came, and a session that was selected stays
/// selected exactly if it is in it.
pub proof fn listed_sessions_stay_selected(s: UiView, v: Vec<Session>, now: u64, id: String)
    ensures
        reduce(s, Event::Sessions(v), now).shelf.sessions == v@,
        reduce(s, Event::Sessions(v), now).shelf.selected_sessions.contains(id)
            <==> s.shelf.selected_sessions.contains(id) && (exists|i: int|
            0 <= i < v@.len() && (#[trigger] v@[i]).id@ == id@),
{
    let sel = s.shelf.selected_sessions;
    let p = |x: String| listed(v@, x@);
    lemma_filter_has(sel, p, id);
}

proof fn lemma_filter_has<T>(s: Seq<T>, p: spec_fn(T) -> bool, x: T)
    ensures
        s.filter(p).contains(x) <==> s.contains(x) && p(x),
    decreases s.len(),
{
    reveal(Seq::filter);
    if s.len() > 0 {
        let h = s.drop_last();
        lemma_filter_has(h, p, x);
        let a = h.filter(p);
        let b = s.filter(p);
        if h.contains(x) {
            let k = choose|k: int| 0 <= k < h.len() && h[k] == x;
            assert(s[k] == x);
        }
        if s.contains(x) && x != s.last() {
            let k = choose|k: int| 0 <= k < s.len() && s[k] == x;
            assert(h[k] == x);
        }
        if a.contains(x) {
            let k = choose|k: int| 0 <= k < a.len() && a[k] == x;
            assert(b[k] == x);
        }
        if p(s.last()) {
            assert(b[a.len() as int] == s.last());
        }
        if b.contains(x) && !a.contains(x) {
            let k = choose|k: int| 0 <= k < b.len() && b[k] == x;
            if k < a.len() {
                assert(a[k] == x);
            }
        }
        assert(s[s.len() - 1] == s.last());
    }
}

/// The first model of the server is chosen, and saved, exactly if none was chosen and
/// the server answered with one; an error is shown and chooses nothing.
pub proof fn a_model_is_chosen_once(s: UiView, models: Vec<String>, e: String, now: u64)
    ensures
        crate::text::is_blank(s.setup.settings.llm_model@) && models@.len() > 0 ==> reduce(
            s,
            (Event::RemoteModels { models, error: None }),
            now,
        ).setup.settings.llm_model == models@[0] && replies(
            s,
            (Event::RemoteModels { models, error: None }),
        ) == seq![Outgoing::SaveSettings],
        !crate::text::is_blank(s.setup.settings.llm_model@) || models@.len() == 0 ==> reduce(
            s,
            (Event::RemoteModels { models, error: None }),
            now,
        ).setup.settings == s.setup.settings && replies(
            s,
            (Event::RemoteModels { models, error: None }),
        ).len() == 0,
        reduce(s, (Event::RemoteModels { models, error: Some(e) }), now).setup.settings
            == s.setup.settings,
        replies(s, (Event::RemoteModels { models, error: Some(e) })).len() == 0,
        reduce(s, (Event::RemoteModels { models, error: Some(e) }), now).notice == Some(
            "External LLM: "@ + e@,
        ),
        reduce(s, (Event::RemoteModels { models, error: None }), now).setup.remote_models
            == models@,
{
}

/// A new window is idle on the live view, shows nothing and waits for nothing, and has
/// the settings that it was given.
pub proof fn new_windows_are_empty(settings: Settings)
    ensures
        ({
            let s = blank_view(settings);
            &&& s.screen is Live && s.rec.status is Idle && s.notice is None
            &&& s.setup.settings == settings && !s.setup.show_settings
            &&& s.rec.live_segments.len() == 0 && s.rec.live_session_id is None
            &&& !s.rec.mic_muted && !s.rec.sys_muted && s.rec.rec_secs == 0
            &&& s.pane.segments.len() == 0 && s.pane.summary is None && s.pane.notes is None
            &&& !s.pane.summarizing && !s.pane.compressing && !s.pane.diarizing
                && !s.pane.retranscribing
            &&& !s.line.timeline_open && !s.line.stats_open && !s.talk.chat_busy
            &&& s.talk.chat.len() == 0 && s.talk.chat_scope is None
            &&& s.shelf.sessions.len() == 0 && s.shelf.selected_sessions.len() == 0
            &&& !s.seek.find_open && !s.seek.semantic_mode && s.seek.search_query.len() == 0
            &&& s.board.jobs.len() == 0 && !s.board.show_jobs
        }),
{
}

} // verus!
