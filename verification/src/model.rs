//! The data that the workers and the window exchange.
//!
//! Values that are only carried through (meter levels, waveform peaks, the
//! playback rate) are held as the bit patterns of their floating-point numbers.

use std::collections::HashMap;

use vstd::prelude::*;

verus! {

/// Which side of a conversation a line belongs to: the user's microphone, or
/// everybody else (system audio).
#[derive(Debug, Clone, Copy, PartialEq, Eq, Structural)]
pub enum Source {
    Me,
    Others,
}

/// One transcribed line.
#[derive(Debug, Clone)]
pub struct Segment {
    /// Database id; absent until the line is stored.
    pub id: Option<i64>,
    pub source: Source,
    pub t_start_ms: u64,
    pub t_end_ms: u64,
    pub text: String,
    /// Diarized speaker index, counted from zero.
    pub speaker: Option<i32>,
}

/// One recorded meeting.
#[derive(Debug, Clone)]
pub struct Session {
    pub id: String,
    pub started_at: u64,
    pub ended_at: Option<u64>,
    pub title: Option<String>,
    pub audio_path: Option<String>,
    pub model: String,
    /// When the session was folded into the overview document.
    pub overview_folded_ms: Option<u64>,
}

/// Recording lifecycle status shown in the window.
#[derive(Debug, Clone)]
pub enum Status {
    Idle,
    PreparingModel,
    Downloading(u8),
    Recording,
    Error(String),
}

/// Retained per-channel audio files that exist on disk for a session.
#[derive(Debug, Clone)]
pub struct AudioFiles {
    /// Path of the microphone track, if present.
    pub me: Option<String>,
    /// Path of the system-audio track, if present.
    pub others: Option<String>,
    /// Per-participant tracks of integration sessions, by speaker index.
    pub speakers: HashMap<i32, String>,
}

/// What an [`AudioFiles`] holds.
pub struct AudioFilesView {
    pub me: Option<String>,
    pub others: Option<String>,
    pub speakers: Map<i32, String>,
}

impl View for AudioFiles {
    type V = AudioFilesView;

    open spec fn view(&self) -> AudioFilesView {
        AudioFilesView { me: self.me, others: self.others, speakers: self.speakers@ }
    }
}

impl AudioFilesView {
    /// No file at all.
    pub open spec fn none() -> AudioFilesView {
        AudioFilesView { me: None, others: None, speakers: Map::empty() }
    }
}

impl Default for AudioFiles {
    fn default() -> (r: AudioFiles)
        ensures
            r@ == AudioFilesView::none(),
    {
        AudioFiles { me: None, others: None, speakers: HashMap::new() }
    }
}

/// One audio track's amplitude profile for the session timeline.
#[derive(Debug, Clone)]
pub struct TimelineLane {
    /// Track suffix: "me", "others", "spk-0", "spk-1", …
    pub track: String,
    /// Speaker index of a participant track.
    pub speaker: Option<i32>,
    pub duration_ms: u64,
    /// Peak per bucket, as bit patterns.
    pub peaks: Vec<u32>,
    /// Speech activity per bucket.
    pub speech: Vec<bool>,
}

/// Which conversation a chat turn belongs to.
#[derive(Debug, Clone)]
pub enum ChatScope {
    Meeting(String),
    CrossMeeting,
}

impl ChatScope {
    /// Two scopes name the same conversation.
    pub open spec fn same_as(self, other: ChatScope) -> bool {
        match (self, other) {
            (ChatScope::Meeting(a), ChatScope::Meeting(b)) => a@ == b@,
            (ChatScope::CrossMeeting, ChatScope::CrossMeeting) => true,
            _ => false,
        }
    }

    /// Whether two scopes name the same conversation.
    pub fn same(&self, other: &ChatScope) -> (r: bool)
        ensures
            r == self.same_as(*other),
    {
        match (self, other) {
            (ChatScope::Meeting(a), ChatScope::Meeting(b)) => *a == *b,
            (ChatScope::CrossMeeting, ChatScope::CrossMeeting) => true,
            _ => false,
        }
    }

    /// A copy of the scope.
    pub fn copy(&self) -> (r: ChatScope)
        ensures
            r == *self,
    {
        match self {
            ChatScope::Meeting(a) => ChatScope::Meeting(a.clone()),
            ChatScope::CrossMeeting => ChatScope::CrossMeeting,
        }
    }
}

/// A model of the catalog and whether it is on disk. `kind` is "transcription",
/// "summary" or "diarization"; `urls` are direct download links.
#[derive(Debug, Clone)]
pub struct ModelInfo {
    pub name: String,
    pub size: String,
    pub description: String,
    pub downloaded: bool,
    pub kind: String,
    pub urls: Vec<String>,
}

/// Talk metrics of one speaker.
#[derive(Debug, Clone)]
pub struct SpeakerStats {
    /// "me", "others" or "spk-N".
    pub key: String,
    pub talk_ms: u64,
    /// Share of the talk time, as a bit pattern.
    pub talk_share: u32,
    /// Share of the talk time in percent, rounded.
    pub share_pct: u32,
    /// The share is above 60 percent.
    pub dominant: bool,
    /// Words per minute, rounded.
    pub wpm: u32,
    pub longest_monologue_ms: u64,
    pub interruptions_made: u32,
    pub questions: u32,
}

/// Conversation analytics of a session.
#[derive(Debug, Clone)]
pub struct SessionStats {
    pub meeting_ms: u64,
    pub speech_ms: u64,
    /// Share of silence in percent, rounded.
    pub silence_pct: u32,
    /// The share of silence is above 40 percent.
    pub quiet: bool,
    /// Speakers, the one with the largest share first.
    pub speakers: Vec<SpeakerStats>,
}

/// A known voice and the sessions it was heard in.
#[derive(Debug, Clone)]
pub struct VoiceprintInfo {
    pub id: i64,
    pub name: String,
    /// Session id and title, one entry per appearance.
    pub appearances: Vec<(String, Option<String>)>,
}

/// A moment of strong sentiment.
#[derive(Debug, Clone)]
pub struct Moment {
    pub t_ms: u64,
    pub label: String,
}

/// One meeting of a person profile.
#[derive(Debug, Clone)]
pub struct ProfileMeeting {
    pub session_id: String,
    pub title: Option<String>,
    pub started_at: u64,
    /// Talk share as a bit pattern.
    pub talk_share: u32,
    pub interruptions: u32,
}

/// A person profile assembled from several sessions.
#[derive(Debug, Clone)]
pub struct ProfileData {
    pub voiceprint_id: i64,
    pub name: String,
    pub meetings: Vec<ProfileMeeting>,
    pub open_items: Vec<String>,
    pub topics: Vec<String>,
    pub last_heard_ms: u64,
}

/// Events from the workers to the window.
#[allow(inconsistent_fields)]
#[derive(Debug, Clone)]
pub enum Event {
    Status(Status),
    /// Non-fatal notice.
    Notice(String),
    /// A freshly transcribed line of the running recording.
    Segment(Segment),
    /// Loudness of a channel, as a bit pattern.
    Level { source: Source, level: u32 },
    Sessions(Vec<Session>),
    /// Sidebar badges per session: summary, compression, speakers.
    SessionBadges(Vec<(String, (bool, bool, bool))>),
    SearchResults(Vec<(String, Segment)>),
    /// The transcript of a session.
    Transcript { id: String, segments: Vec<Segment> },
    /// Something was exported to this path.
    Exported(String),
    Models(Vec<ModelInfo>),
    ModelProgress { name: String, pct: u8 },
    DownloadFailed { name: String },
    Summary(Option<String>),
    Compressed(Option<String>),
    /// The session whose recording just began.
    SessionStarted(String),
    Notes(Option<String>),
    NoteResults(Vec<(String, String)>),
    ChatReply { scope: ChatScope, reply: String },
    ChatDelta { scope: ChatScope, delta: String },
    /// Custom speaker names of the viewed session.
    Speakers(HashMap<i32, String>),
    /// A diarization run ended, however it went.
    Diarized { id: String, speakers: HashMap<i32, String> },
    /// Expected speaker count of the viewed session; zero means automatic.
    DiarizeSpeakers(u32),
    AudioFiles(AudioFiles),
    /// Which speaker is the user.
    MeSpeaker(Option<i32>),
    /// The line being played back.
    Playing(Option<i64>),
    RemoteModels { models: Vec<String>, error: Option<String> },
    Retranscribing,
    Retranscribed,
    JobStarted { id: String, kind: String, label: String },
    JobFinished { id: String },
    Voiceprints(Vec<VoiceprintInfo>),
    OverviewDoc { markdown: String, updated_at: u64 },
    Timeline { id: String, lanes: Vec<TimelineLane> },
    /// Playhead of the timeline; `None` when playback is over.
    TimelinePos { ms: Option<u64> },
    Stats { id: String, stats: SessionStats },
    Bookmarks { id: String, items: Vec<(u64, String)> },
    Profile(ProfileData),
    Moments { id: String, items: Vec<Moment> },
}

/// The format of a transcript export.
#[derive(Debug, Clone, Copy, PartialEq, Eq, Structural)]
pub enum ExportFormat {
    Markdown,
    Text,
    Srt,
    Json,
}

/// Commands that control recording.
#[derive(Debug, Clone)]
pub enum RecorderCmd {
    Start {
        model: String,
        keep_audio: bool,
        input_device: Option<String>,
        audio_dir: String,
        record_mic: bool,
        record_system: bool,
        /// Transcribe while recording.
        live: bool,
        /// Record a voice chat through the integration instead of this machine.
        integration: bool,
    },
    Stop,
    SetMicMuted(bool),
    SetSystemMuted(bool),
    /// Meter a microphone without recording it.
    MicTestStart { device: Option<String> },
    MicTestStop,
    /// Bookmark the current recording time.
    DropBookmark,
    Shutdown,
}

/// Database commands.
#[allow(inconsistent_fields)]
#[derive(Debug, Clone)]
pub enum DbCmd {
    ListSessions,
    Search(String),
    Load(String),
    Export { id: String, format: ExportFormat },
    ExportAudio(String),
    /// Compress kept tracks of ended sessions, old ones only unless `ignore_age`.
    CompressAudio { ignore_age: bool },
    Rename { id: String, title: String },
    DeleteSession(String),
    DeleteSessions(Vec<String>),
    ClearSummary(String),
    ClearCompressed(String),
    EditSegment { segment_id: i64, text: String },
    Diarize { id: String, num_speakers: u32 },
    Retranscribe(String),
    RenameSpeaker { id: String, speaker: i32, name: String },
    Voiceprints,
    VoiceprintRename { id: i64, name: String },
    VoiceprintForget { id: i64 },
    VoiceprintForgetAll,
    VoiceprintUnlink { voiceprint_id: i64, session_id: String },
    SetNotes { id: String, notes: String },
    LoadOverviewDoc,
    SaveOverviewDoc(String),
    RevertOverviewDoc,
    LoadTimeline(String),
    ExportClip { id: String, paths: Vec<String>, start_ms: u64, end_ms: u64 },
    RetranscribeRange { id: String, start_ms: u64, end_ms: u64 },
    LoadStats(String),
    ExportDiagnostics,
    /// Mirror a session, or the overview document, to the knowledge base.
    KbMirror { session_id: Option<String> },
    KbExportAll,
    LoadProfile(i64),
}

/// Playback commands. The playback rate is a bit pattern.
#[derive(Debug, Clone)]
pub enum PlayCmd {
    Play { segment_id: i64, wav: String, start_ms: u64, end_ms: u64 },
    Stop,
    TimelinePlay { paths: Vec<String>, start_ms: u64 },
    TimelinePause,
    TimelineResume,
    TimelineSeek { start_ms: u64 },
    TimelineSpeed(u32),
}

/// Model-management commands.
#[derive(Debug, Clone)]
pub enum ModelCmd {
    List,
    Download(String),
    Delete(String),
    /// Ask the external language-model server for its models.
    ListRemoteLlm,
}

/// Jobs of the language-model worker.
#[derive(Debug, Clone)]
pub enum SummCmd {
    Summarize(String),
    Compress(String),
    /// The conversation so far; each turn says whether the user wrote it.
    Chat { scope: ChatScope, turns: Vec<(bool, String)> },
    /// Fold one session, or every session not folded yet, into the overview.
    UpdateOverviewDoc { session: Option<String> },
    RecompressAll,
}

/// Commands of the semantic-search worker.
#[derive(Debug, Clone)]
pub enum EmbedCmd {
    EmbedSession(String),
    BackfillAll,
    Query(String),
}

/// Commands of the sentiment worker.
#[derive(Debug, Clone)]
pub enum AnalyzeCmd {
    AnalyzeSession(String),
    BackfillAll,
}

/// The optional parts that a build was made with.
#[derive(Debug, Clone, Copy)]
pub struct Features {
    pub llm_remote: bool,
    pub llm_local: bool,
    pub diarization: bool,
    pub voiceprints: bool,
    pub semantic: bool,
    pub sentiment: bool,
    pub discord: bool,
    pub self_update: bool,
    pub parakeet: bool,
    pub encryption: bool,
}

impl Segment {
    /// A copy of the line.
    pub fn copy(&self) -> (r: Segment)
        ensures
            r == *self,
    {
        Segment {
            id: self.id,
            source: self.source,
            t_start_ms: self.t_start_ms,
            t_end_ms: self.t_end_ms,
            text: self.text.clone(),
            speaker: self.speaker,
        }
    }
}

impl Session {
    /// A copy of the session.
    pub fn copy(&self) -> (r: Session)
        ensures
            r == *self,
    {
        Session {
            id: self.id.clone(),
            started_at: self.started_at,
            ended_at: self.ended_at,
            title: crate::text::copy_opt(&self.title),
            audio_path: crate::text::copy_opt(&self.audio_path),
            model: self.model.clone(),
            overview_folded_ms: self.overview_folded_ms,
        }
    }
}

/// A conversation is the one with the same session, or the one over all of them.
pub proof fn conversations_are_told_apart(a: String, b: String, x: ChatScope, y: ChatScope)
    ensures
        ChatScope::Meeting(a).same_as(ChatScope::Meeting(b)) <==> a@ == b@,
        !ChatScope::Meeting(a).same_as(ChatScope::CrossMeeting),
        x.same_as(x),
        x.same_as(y) == y.same_as(x),
{
}

/// Without files there is none for anybody.
pub proof fn no_files_are_no_files(n: i32)
    ensures
        AudioFilesView::none().me is None && AudioFilesView::none().others is None,
        !AudioFilesView::none().speakers.contains_key(n),
{
}

} // verus!
