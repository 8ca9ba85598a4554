//! The database worker: what each command does, in order.

use crate::job_keys::JobKey;
use crate::model::{DbCmd, ExportFormat};
#[allow(unused_imports)]
use crate::number::{decimal, write_u64};
use crate::search::sanitize_fts;
#[allow(unused_imports)]
use crate::search::fts_query;
#[allow(unused_imports)]
use crate::text::{blank, is_blank, trim, trimmed};
#[allow(unused_imports)]
use crate::tracks::{planned_timeline, timeline_plan, TimelinePlan};
use vstd::prelude::*;

verus! {

/// Work that runs on a thread of its own.
#[derive(Debug, Clone)]
pub enum Work {
    ExportAudio(String),
    CompressAudio { ignore_age: bool },
    Diarize { id: String, num_speakers: u32 },
    Retranscribe(String),
    ExportClip { id: String, paths: Vec<String>, start_ms: u64, end_ms: u64 },
    RetranscribeRange { id: String, start_ms: u64, end_ms: u64 },
    KbExport,
    /// Compute the timeline of a session, keep it and report it.
    Timeline(String),
}

/// One step of the database worker.
#[derive(Debug, Clone)]
pub enum DbStep {
    /// Report the session list and its badges.
    SendSessions,
    SendTranscript(String),
    SendSpeakers(String),
    SendSummary(String),
    SendCompressed(String),
    SendNotes(String),
    SendDiarizeSpeakers(String),
    SendAudioFiles(String),
    SendMeSpeaker(String),
    /// Compute the analytics, store them and report them.
    SendStats(String),
    SendBookmarks(String),
    SendMoments(String),
    SendVoiceprints,
    SendOverview,
    SendProfile(i64),
    /// Report a timeline without lanes.
    SendNoTimeline(String),
    /// Report the timeline that is kept.
    SendTimeline(String),
    /// Report that there is no summary.
    SendNoSummary,
    SendNoCompressed,
    /// Report empty transcript results.
    SendNoHits,
    SendNoNoteHits,
    /// Search the transcripts with this expression and report the hits.
    SearchTranscripts(String),
    /// Search the notes for this text and report the hits.
    SearchNotes(String),
    SetTitle { id: String, title: String },
    SetNotes { id: String, notes: String },
    DeleteSession(String),
    ClearSummary(String),
    ClearCompressed(String),
    EditSegment { segment_id: i64, text: String },
    SetSpeakerName { id: String, speaker: i32, name: String },
    /// Learn the speaker's voice under the given name, link it to the session and
    /// report the known voices.
    EnrollVoice { id: String, speaker: i32, name: String },
    RenameVoice { id: i64, name: String },
    ForgetVoice(i64),
    ForgetAllVoices,
    UnlinkVoice { voiceprint_id: i64, session_id: String },
    WriteOverview(String),
    /// Exchange the overview document with its previous version.
    SwapOverview,
    SetDiarizeSpeakers { id: String, num_speakers: u32 },
    Export { id: String, format: ExportFormat },
    ExportDiagnostics,
    /// Mirror a session to the knowledge base; `report` says that a folder which
    /// cannot be created is reported.
    MirrorSession { id: String, report: bool },
    /// Mirror the overview document, unless it is empty.
    MirrorOverview { report: bool },
    /// Remove a session's file from the knowledge base.
    RemoveMirror(String),
    /// Report how many sessions were deleted.
    NoticeDeleted(usize),
    /// Ask for a knowledge-base folder.
    NoticeNoFolder,
    /// Create the knowledge-base folder; if that fails, report it and stop.
    MakeFolder,
    /// Register a job.
    BeginJob(JobKey),
    /// Run the work on a thread of its own; the job ends when it does. A job that
    /// is not registered yet is registered there first.
    Spawn { key: JobKey, work: Work },
}

/// What a command depends on besides itself.
#[derive(Debug, Clone, Copy)]
pub struct DbContext {
    /// A knowledge-base folder is set.
    pub kb_dir: bool,
    /// Voices are learned: the build can, and the setting is on.
    pub learn_voices: bool,
    /// The command's job is registered.
    pub running: bool,
    /// How many tracks the session has whose timeline is asked for.
    pub tracks: usize,
    /// The timeline that is asked for is kept.
    pub kept: bool,
}

/// The job of a command, where it has one.
pub open spec fn job_of(cmd: DbCmd) -> Option<JobKey> {
    match cmd {
        DbCmd::ExportAudio(id) => Some(JobKey::ExportAudio(id)),
        DbCmd::CompressAudio { ignore_age } => Some(JobKey::CompressAudio),
        DbCmd::Diarize { id, num_speakers } => Some(JobKey::Diarize(id)),
        DbCmd::Retranscribe(id) => Some(JobKey::Retranscribe(id)),
        DbCmd::LoadTimeline(id) => Some(JobKey::Timeline(id)),
        DbCmd::ExportClip { id, paths, start_ms, end_ms } => Some(JobKey::ExportClip(id)),
        DbCmd::RetranscribeRange { id, start_ms, end_ms } => Some(JobKey::RetranscribeRange(id)),
        DbCmd::KbExportAll => Some(JobKey::KbExport),
        _ => None,
    }
}

/// The job of a command, where it has one.
pub fn command_job(cmd: &DbCmd) -> (r: Option<JobKey>)
    ensures
        r == job_of(*cmd),
{
    match cmd {
        DbCmd::ExportAudio(id) => Some(JobKey::ExportAudio(id.clone())),
        DbCmd::CompressAudio { ignore_age: _ } => Some(JobKey::CompressAudio),
        DbCmd::Diarize { id, num_speakers: _ } => Some(JobKey::Diarize(id.clone())),
        DbCmd::Retranscribe(id) => Some(JobKey::Retranscribe(id.clone())),
        DbCmd::LoadTimeline(id) => Some(JobKey::Timeline(id.clone())),
        DbCmd::ExportClip { id, paths: _, start_ms: _, end_ms: _ } => Some(
            JobKey::ExportClip(id.clone()),
        ),
        DbCmd::RetranscribeRange { id, start_ms: _, end_ms: _ } => Some(
            JobKey::RetranscribeRange(id.clone()),
        ),
        DbCmd::KbExportAll => Some(JobKey::KbExport),
        _ => None,
    }
}

/// One step if a condition holds.
pub open spec fn when(c: bool, s: DbStep) -> Seq<DbStep> {
    if c {
        seq![s]
    } else {
        Seq::empty()
    }
}

/// The steps that load a session.
pub open spec fn load_steps(id: String) -> Seq<DbStep> {
    seq![
        DbStep::SendTranscript(id),
        DbStep::SendSpeakers(id),
        DbStep::SendSummary(id),
        DbStep::SendCompressed(id),
        DbStep::SendNotes(id),
        DbStep::SendDiarizeSpeakers(id),
        DbStep::SendAudioFiles(id),
        DbStep::SendMeSpeaker(id),
        DbStep::SendStats(id),
        DbStep::SendBookmarks(id),
        DbStep::SendMoments(id),
    ]
}

/// The steps that delete several sessions.
pub open spec fn delete_steps(ids: Seq<String>, kb_dir: bool) -> Seq<DbStep>
    decreases ids.len(),
{
    if ids.len() == 0 {
        Seq::empty()
    } else {
        delete_steps(ids.drop_last(), kb_dir) + seq![DbStep::DeleteSession(ids.last())] + when(
            kb_dir,
            DbStep::RemoveMirror(ids.last()),
        )
    }
}

/// The steps of a search: a blank query clears both lists; otherwise the
/// transcripts are searched unless nothing is left of the query, and the notes
/// are searched for it as typed.
pub open spec fn is_search_steps(raw: Seq<char>, r: Seq<DbStep>) -> bool {
    let t = trimmed(raw);
    if t.len() == 0 {
        r == seq![DbStep::SendNoHits, DbStep::SendNoNoteHits]
    } else {
        &&& r.len() == 2
        &&& if fts_query(t).len() == 0 {
            r[0] == DbStep::SendNoHits
        } else {
            r[0] matches DbStep::SearchTranscripts(q) && q@ == fts_query(t)
        }
        &&& r[1] matches DbStep::SearchNotes(n) && n@ == t
    }
}

/// The steps that answer a request for a timeline.
pub open spec fn timeline_steps(id: String, plan: TimelinePlan) -> Seq<DbStep> {
    match plan {
        TimelinePlan::Empty => seq![DbStep::SendNoTimeline(id)],
        TimelinePlan::Cached => seq![DbStep::SendTimeline(id)],
        TimelinePlan::Building => Seq::empty(),
        TimelinePlan::Build => seq![
            DbStep::BeginJob(JobKey::Timeline(id)),
            DbStep::Spawn { key: JobKey::Timeline(id), work: Work::Timeline(id) },
        ],
    }
}

/// These are the steps of a command. A search leads to texts, which are fixed by
/// their characters.
pub open spec fn are_steps_of(cmd: DbCmd, c: DbContext, r: Seq<DbStep>) -> bool {
    match cmd {
        DbCmd::Search(raw) => is_search_steps(raw@, r),
        _ => r == steps_of(cmd, c),
    }
}

/// The steps of a command that is no search.
pub open spec fn steps_of(cmd: DbCmd, c: DbContext) -> Seq<DbStep>
    recommends
        !(cmd is Search),
{
    match cmd {
        DbCmd::Search(raw) => arbitrary(),
        DbCmd::ListSessions => seq![DbStep::SendSessions],
        DbCmd::Load(id) => load_steps(id),
        DbCmd::Export { id, format } => seq![DbStep::Export { id, format }],
        DbCmd::ExportAudio(id) => seq![
            DbStep::Spawn { key: JobKey::ExportAudio(id), work: Work::ExportAudio(id) },
        ],
        DbCmd::CompressAudio { ignore_age } => seq![
            DbStep::Spawn { key: JobKey::CompressAudio, work: Work::CompressAudio { ignore_age } },
        ],
        DbCmd::Rename { id, title } => seq![
            DbStep::SetTitle { id, title },
            DbStep::SendSessions,
        ] + when(c.kb_dir, DbStep::MirrorSession { id, report: false }),
        DbCmd::DeleteSession(id) => seq![DbStep::DeleteSession(id), DbStep::SendSessions] + when(
            c.kb_dir,
            DbStep::RemoveMirror(id),
        ),
        DbCmd::DeleteSessions(ids) => delete_steps(ids@, c.kb_dir) + seq![
            DbStep::SendSessions,
            DbStep::NoticeDeleted(ids@.len() as usize),
        ],
        DbCmd::ClearSummary(id) => seq![
            DbStep::ClearSummary(id),
            DbStep::SendNoSummary,
            DbStep::SendSessions,
        ],
        DbCmd::ClearCompressed(id) => seq![
            DbStep::ClearCompressed(id),
            DbStep::SendNoCompressed,
            DbStep::SendSessions,
        ],
        DbCmd::EditSegment { segment_id, text } => seq![DbStep::EditSegment { segment_id, text }],
        DbCmd::Diarize { id, num_speakers } => seq![
            DbStep::SetDiarizeSpeakers { id, num_speakers },
            DbStep::Spawn {
                key: JobKey::Diarize(id),
                work: Work::Diarize { id, num_speakers },
            },
        ],
        DbCmd::Retranscribe(id) => seq![
            DbStep::Spawn { key: JobKey::Retranscribe(id), work: Work::Retranscribe(id) },
        ],
        DbCmd::RenameSpeaker { id, speaker, name } => seq![
            DbStep::SetSpeakerName { id, speaker, name },
        ] + when(
            c.learn_voices && !is_blank(name@),
            DbStep::EnrollVoice { id, speaker, name },
        ) + seq![DbStep::SendSpeakers(id)],
        DbCmd::Voiceprints => seq![DbStep::SendVoiceprints],
        DbCmd::VoiceprintRename { id, name } => seq![
            DbStep::RenameVoice { id, name },
            DbStep::SendVoiceprints,
        ],
        DbCmd::VoiceprintForget { id } => seq![DbStep::ForgetVoice(id), DbStep::SendVoiceprints],
        DbCmd::VoiceprintForgetAll => seq![DbStep::ForgetAllVoices, DbStep::SendVoiceprints],
        DbCmd::VoiceprintUnlink { voiceprint_id, session_id } => seq![
            DbStep::UnlinkVoice { voiceprint_id, session_id },
            DbStep::SendVoiceprints,
            DbStep::SendSpeakers(session_id),
        ],
        DbCmd::SetNotes { id, notes } => seq![DbStep::SetNotes { id, notes }],
        DbCmd::LoadOverviewDoc => seq![DbStep::SendOverview],
        DbCmd::SaveOverviewDoc(doc) => seq![
            DbStep::WriteOverview(doc),
            DbStep::SendOverview,
        ] + when(c.kb_dir, DbStep::MirrorOverview { report: false }),
        DbCmd::RevertOverviewDoc => seq![DbStep::SwapOverview, DbStep::SendOverview] + when(
            c.kb_dir,
            DbStep::MirrorOverview { report: false },
        ),
        DbCmd::LoadTimeline(id) => timeline_steps(
            id,
            planned_timeline(c.tracks as nat, c.kept, c.running),
        ),
        DbCmd::ExportClip { id, paths, start_ms, end_ms } => if c.running {
            Seq::empty()
        } else {
            seq![
                DbStep::BeginJob(JobKey::ExportClip(id)),
                DbStep::Spawn {
                    key: JobKey::ExportClip(id),
                    work: Work::ExportClip { id, paths, start_ms, end_ms },
                },
            ]
        },
        DbCmd::RetranscribeRange { id, start_ms, end_ms } => if c.running {
            Seq::empty()
        } else {
            seq![
                DbStep::BeginJob(JobKey::RetranscribeRange(id)),
                DbStep::Spawn {
                    key: JobKey::RetranscribeRange(id),
                    work: Work::RetranscribeRange { id, start_ms, end_ms },
                },
            ]
        },
        DbCmd::LoadStats(id) => seq![DbStep::SendStats(id)],
        DbCmd::ExportDiagnostics => seq![DbStep::ExportDiagnostics],
        DbCmd::KbMirror { session_id } => if !c.kb_dir {
            Seq::empty()
        } else {
            match session_id {
                None => seq![DbStep::MirrorOverview { report: true }],
                Some(id) => seq![DbStep::MirrorSession { id, report: true }],
            }
        },
        DbCmd::KbExportAll => if c.running {
            Seq::empty()
        } else if !c.kb_dir {
            seq![DbStep::NoticeNoFolder]
        } else {
            seq![
                DbStep::MakeFolder,
                DbStep::BeginJob(JobKey::KbExport),
                DbStep::Spawn { key: JobKey::KbExport, work: Work::KbExport },
            ]
        },
        DbCmd::LoadProfile(id) => seq![DbStep::SendProfile(id)],
    }
}

/// The steps of a search.
pub fn search_steps(raw: &str) -> (r: Vec<DbStep>)
    ensures
        is_search_steps(raw@, r@),
{
    let mut r: Vec<DbStep> = Vec::new();
    let t = trim(raw);
    if t.as_str().unicode_len() == 0 {
        r.push(DbStep::SendNoHits);
        r.push(DbStep::SendNoNoteHits);
        assert(r@ =~= seq![DbStep::SendNoHits, DbStep::SendNoNoteHits]);
        return r;
    }
    let q = sanitize_fts(&t);
    if q.as_str().unicode_len() == 0 {
        r.push(DbStep::SendNoHits);
    } else {
        r.push(DbStep::SearchTranscripts(q));
    }
    r.push(DbStep::SearchNotes(t));
    r
}

fn load_list(id: String) -> (r: Vec<DbStep>)
    ensures
        r@ == load_steps(id),
{
    let mut r: Vec<DbStep> = Vec::new();
    r.push(DbStep::SendTranscript(id.clone()));
    r.push(DbStep::SendSpeakers(id.clone()));
    r.push(DbStep::SendSummary(id.clone()));
    r.push(DbStep::SendCompressed(id.clone()));
    r.push(DbStep::SendNotes(id.clone()));
    r.push(DbStep::SendDiarizeSpeakers(id.clone()));
    r.push(DbStep::SendAudioFiles(id.clone()));
    r.push(DbStep::SendMeSpeaker(id.clone()));
    r.push(DbStep::SendStats(id.clone()));
    r.push(DbStep::SendBookmarks(id.clone()));
    r.push(DbStep::SendMoments(id));
    r
}

fn delete_list(ids: &Vec<String>, kb_dir: bool) -> (r: Vec<DbStep>)
    ensures
        r@ == delete_steps(ids@, kb_dir) + seq![
            DbStep::SendSessions,
            DbStep::NoticeDeleted(ids@.len() as usize),
        ],
{
    let mut r: Vec<DbStep> = Vec::new();
    let mut i: usize = 0;
    while i < ids.len()
        invariant
            i <= ids@.len(),
            r@ == delete_steps(ids@.take(i as int), kb_dir),
        decreases ids@.len() - i,
    {
        assert(ids@.take(i + 1).drop_last() =~= ids@.take(i as int));
        r.push(DbStep::DeleteSession(ids[i].clone()));
        if kb_dir {
            r.push(DbStep::RemoveMirror(ids[i].clone()));
        }
        assert(r@ =~= delete_steps(ids@.take(i + 1), kb_dir));
        i += 1;
    }
    assert(ids@.take(i as int) =~= ids@);
    r.push(DbStep::SendSessions);
    r.push(DbStep::NoticeDeleted(ids.len()));
    r
}

fn job_steps(cmd: DbCmd, c: DbContext) -> (r: Vec<DbStep>)
    requires
        job_of(cmd) is Some,
    ensures
        r@ == steps_of(cmd, c),
{
    let mut r: Vec<DbStep> = Vec::new();
    match cmd {
        DbCmd::ExportAudio(id) => {
            r.push(
                DbStep::Spawn {
                    key: JobKey::ExportAudio(id.clone()),
                    work: Work::ExportAudio(id),
                },
            );
        },
        DbCmd::CompressAudio { ignore_age } => {
            r.push(
                DbStep::Spawn {
                    key: JobKey::CompressAudio,
                    work: Work::CompressAudio { ignore_age },
                },
            );
        },
        DbCmd::Diarize { id, num_speakers } => {
            r.push(DbStep::SetDiarizeSpeakers { id: id.clone(), num_speakers });
            r.push(
                DbStep::Spawn {
                    key: JobKey::Diarize(id.clone()),
                    work: Work::Diarize { id, num_speakers },
                },
            );
        },
        DbCmd::Retranscribe(id) => {
            r.push(
                DbStep::Spawn {
                    key: JobKey::Retranscribe(id.clone()),
                    work: Work::Retranscribe(id),
                },
            );
        },
        DbCmd::LoadTimeline(id) => {
            match timeline_plan(c.tracks, c.kept, c.running) {
                TimelinePlan::Empty => {
                    r.push(DbStep::SendNoTimeline(id));
                },
                TimelinePlan::Cached => {
                    r.push(DbStep::SendTimeline(id));
                },
                TimelinePlan::Building => {},
                TimelinePlan::Build => {
                    r.push(DbStep::BeginJob(JobKey::Timeline(id.clone())));
                    r.push(
                        DbStep::Spawn {
                            key: JobKey::Timeline(id.clone()),
                            work: Work::Timeline(id),
                        },
                    );
                },
            }
        },
        DbCmd::ExportClip { id, paths, start_ms, end_ms } => {
            if !c.running {
                r.push(DbStep::BeginJob(JobKey::ExportClip(id.clone())));
                r.push(
                    DbStep::Spawn {
                        key: JobKey::ExportClip(id.clone()),
                        work: Work::ExportClip { id, paths, start_ms, end_ms },
                    },
                );
            }
        },
        DbCmd::RetranscribeRange { id, start_ms, end_ms } => {
            if !c.running {
                r.push(DbStep::BeginJob(JobKey::RetranscribeRange(id.clone())));
                r.push(
                    DbStep::Spawn {
                        key: JobKey::RetranscribeRange(id.clone()),
                        work: Work::RetranscribeRange { id, start_ms, end_ms },
                    },
                );
            }
        },
        DbCmd::KbExportAll => {
            if !c.running {
                if c.kb_dir {
                    r.push(DbStep::MakeFolder);
                    r.push(DbStep::BeginJob(JobKey::KbExport));
                    r.push(DbStep::Spawn { key: JobKey::KbExport, work: Work::KbExport });
                } else {
                    r.push(DbStep::NoticeNoFolder);
                }
            }
        },
        _ => {},
    }
    r
}

fn edit_steps(cmd: DbCmd, c: DbContext) -> (r: Vec<DbStep>)
    requires
        job_of(cmd) is None,
        !(cmd is Search),
    ensures
        r@ == steps_of(cmd, c),
{
    let mut r: Vec<DbStep> = Vec::new();
    match cmd {
        DbCmd::ListSessions => {
            r.push(DbStep::SendSessions);
        },
        DbCmd::Load(id) => {
            return load_list(id);
        },
        DbCmd::Export { id, format } => {
            r.push(DbStep::Export { id, format });
        },
        DbCmd::Rename { id, title } => {
            r.push(DbStep::SetTitle { id: id.clone(), title });
            r.push(DbStep::SendSessions);
            if c.kb_dir {
                r.push(DbStep::MirrorSession { id, report: false });
            }
        },
        DbCmd::DeleteSession(id) => {
            r.push(DbStep::DeleteSession(id.clone()));
            r.push(DbStep::SendSessions);
            if c.kb_dir {
                r.push(DbStep::RemoveMirror(id));
            }
        },
        DbCmd::DeleteSessions(ids) => {
            return delete_list(&ids, c.kb_dir);
        },
        DbCmd::ClearSummary(id) => {
            r.push(DbStep::ClearSummary(id));
            r.push(DbStep::SendNoSummary);
            r.push(DbStep::SendSessions);
        },
        DbCmd::ClearCompressed(id) => {
            r.push(DbStep::ClearCompressed(id));
            r.push(DbStep::SendNoCompressed);
            r.push(DbStep::SendSessions);
        },
        DbCmd::EditSegment { segment_id, text } => {
            r.push(DbStep::EditSegment { segment_id, text });
        },
        DbCmd::RenameSpeaker { id, speaker, name } => {
            let learn = c.learn_voices && !blank(&name);
            r.push(DbStep::SetSpeakerName { id: id.clone(), speaker, name: name.clone() });
            if learn {
                r.push(DbStep::EnrollVoice { id: id.clone(), speaker, name });
            }
            r.push(DbStep::SendSpeakers(id));
        },
        DbCmd::Voiceprints => {
            r.push(DbStep::SendVoiceprints);
        },
        DbCmd::VoiceprintRename { id, name } => {
            r.push(DbStep::RenameVoice { id, name });
            r.push(DbStep::SendVoiceprints);
        },
        DbCmd::VoiceprintForget { id } => {
            r.push(DbStep::ForgetVoice(id));
            r.push(DbStep::SendVoiceprints);
        },
        DbCmd::VoiceprintForgetAll => {
            r.push(DbStep::ForgetAllVoices);
            r.push(DbStep::SendVoiceprints);
        },
        DbCmd::VoiceprintUnlink { voiceprint_id, session_id } => {
            r.push(DbStep::UnlinkVoice { voiceprint_id, session_id: session_id.clone() });
            r.push(DbStep::SendVoiceprints);
            r.push(DbStep::SendSpeakers(session_id));
        },
        DbCmd::SetNotes { id, notes } => {
            r.push(DbStep::SetNotes { id, notes });
        },
        DbCmd::LoadOverviewDoc => {
            r.push(DbStep::SendOverview);
        },
        DbCmd::SaveOverviewDoc(doc) => {
            r.push(DbStep::WriteOverview(doc));
            r.push(DbStep::SendOverview);
            if c.kb_dir {
                r.push(DbStep::MirrorOverview { report: false });
            }
        },
        DbCmd::RevertOverviewDoc => {
            r.push(DbStep::SwapOverview);
            r.push(DbStep::SendOverview);
            if c.kb_dir {
                r.push(DbStep::MirrorOverview { report: false });
            }
        },
        DbCmd::LoadStats(id) => {
            r.push(DbStep::SendStats(id));
        },
        DbCmd::ExportDiagnostics => {
            r.push(DbStep::ExportDiagnostics);
        },
        DbCmd::KbMirror { session_id } => {
            if c.kb_dir {
                match session_id {
                    None => {
                        r.push(DbStep::MirrorOverview { report: true });
                    },
                    Some(id) => {
                        r.push(DbStep::MirrorSession { id, report: true });
                    },
                }
            }
        },
        DbCmd::LoadProfile(id) => {
            r.push(DbStep::SendProfile(id));
        },
        _ => {},
    }
    r
}

/// The steps of a command, in order.
pub fn db_steps(cmd: DbCmd, c: DbContext) -> (r: Vec<DbStep>)
    ensures
        are_steps_of(cmd, c, r@),
{
    if let DbCmd::Search(raw) = cmd {
        return search_steps(&raw);
    }
    match command_job(&cmd) {
        Some(_) => job_steps(cmd, c),
        None => edit_steps(cmd, c),
    }
}

/// The notice after sessions were deleted.
pub fn deleted_text(count: usize) -> (r: String)
    ensures
        r@ == "Deleted "@ + decimal(count as nat) + " session"@ + (if count == 1 {
            ""@
        } else {
            "s"@
        }) + "."@,
{
    let mut r = "Deleted ".to_string();
    r.push_str(&write_u64(count as u64));
    r.push_str(" session");
    r.push_str(
        if count == 1 {
            ""
        } else {
            "s"
        },
    );
    r.push_str(".");
    r
}

/// The notice after the whole knowledge base was written.
pub fn mirrored_text(count: usize) -> (r: String)
    ensures
        r@ == "Knowledge-base export complete — "@ + decimal(count as nat) + " session"@ + (
        if count == 1 {
            ""@
        } else {
            "s"@
        }) + " mirrored."@,
{
    let mut r = "Knowledge-base export complete — ".to_string();
    r.push_str(&write_u64(count as u64));
    r.push_str(" session");
    r.push_str(
        if count == 1 {
            ""
        } else {
            "s"
        },
    );
    r.push_str(" mirrored.");
    r
}

// ---------------------------------------------------------------------------
// What holds of every command
// ---------------------------------------------------------------------------

/// The step changes what the session list shows.
pub open spec fn changes_list(s: DbStep) -> bool {
    s is SetTitle || s is DeleteSession || s is ClearSummary || s is ClearCompressed
}

/// The step writes to the knowledge base.
pub open spec fn touches_kb(s: DbStep) -> bool {
    s is MirrorSession || s is MirrorOverview || s is RemoveMirror || s is MakeFolder
        || (s matches DbStep::Spawn { key, work } && work is KbExport)
}

proof fn lemma_delete_steps(ids: Seq<String>, kb_dir: bool)
    ensures
        forall|i: int|
            0 <= i < delete_steps(ids, kb_dir).len() ==> {
                let s = #[trigger] delete_steps(ids, kb_dir)[i];
                &&& s is DeleteSession || s is RemoveMirror
                &&& s is RemoveMirror ==> kb_dir
            },
    decreases ids.len(),
{
    if ids.len() > 0 {
        lemma_delete_steps(ids.drop_last(), kb_dir);
        let p = delete_steps(ids.drop_last(), kb_dir);
        let r = delete_steps(ids, kb_dir);
        assert forall|i: int| 0 <= i < r.len() implies {
            let s = #[trigger] r[i];
            &&& s is DeleteSession || s is RemoveMirror
            &&& s is RemoveMirror ==> kb_dir
        } by {
            if i < p.len() {
                assert(r[i] == p[i]);
            }
        }
    }
}

/// The list is reported at or after place `i`.
pub open spec fn reported_after(r: Seq<DbStep>, i: int) -> bool {
    exists|k: int| i <= k < r.len() && #[trigger] r[k] == DbStep::SendSessions
}

/// Whatever changes what the session list shows, the list is reported afterwards.
pub proof fn list_changes_are_reported(cmd: DbCmd, c: DbContext, r: Seq<DbStep>, i: int)
    requires
        are_steps_of(cmd, c, r),
        0 <= i < r.len(),
        changes_list(r[i]),
    ensures
        reported_after(r, i),
{
    match cmd {
        DbCmd::DeleteSessions(ids) => {
            let d = delete_steps(ids@, c.kb_dir);
            assert(r[d.len() as int] == DbStep::SendSessions);
        },
        DbCmd::Rename { id, title } => {
            assert(r[1] == DbStep::SendSessions);
        },
        DbCmd::DeleteSession(id) => {
            assert(r[1] == DbStep::SendSessions);
        },
        DbCmd::ClearSummary(id) => {
            assert(r[2] == DbStep::SendSessions);
        },
        DbCmd::ClearCompressed(id) => {
            assert(r[2] == DbStep::SendSessions);
        },
        _ => {},
    }
}

/// Without a knowledge-base folder nothing of the knowledge base is touched.
pub proof fn no_folder_no_mirror(cmd: DbCmd, c: DbContext, r: Seq<DbStep>, i: int)
    requires
        !c.kb_dir,
        are_steps_of(cmd, c, r),
        0 <= i < r.len(),
    ensures
        !touches_kb(r[i]),
{
    if let DbCmd::DeleteSessions(ids) = cmd {
        lemma_delete_steps(ids@, c.kb_dir);
        let d = delete_steps(ids@, c.kb_dir);
        if i < d.len() {
            assert(r[i] == d[i]);
        }
    }
}

/// A job that is registered by the database worker is never started twice: with
/// its job running, the command does nothing at all, but for a timeline that is
/// known already, which is reported.
pub proof fn running_jobs_are_not_doubled(cmd: DbCmd, c: DbContext, r: Seq<DbStep>)
    requires
        c.running,
        are_steps_of(cmd, c, r),
        cmd is ExportClip || cmd is RetranscribeRange || cmd is KbExportAll || cmd is LoadTimeline,
    ensures
        !(cmd is LoadTimeline) ==> r.len() == 0,
        cmd matches DbCmd::LoadTimeline(id) ==> r == (if c.tracks == 0 {
            seq![DbStep::SendNoTimeline(id)]
        } else if c.kept {
            seq![DbStep::SendTimeline(id)]
        } else {
            Seq::empty()
        }),
{
}

/// A request for a timeline is always answered: at once, or by the job that
/// computes it, which runs already or is started.
pub proof fn timelines_are_answered(id: String, c: DbContext, r: Seq<DbStep>)
    requires
        are_steps_of(DbCmd::LoadTimeline(id), c, r),
    ensures
        r.len() == 0 ==> c.running,
        r.len() > 0 ==> {
            ||| r.last() == DbStep::SendNoTimeline(id)
            ||| r.last() == DbStep::SendTimeline(id)
            ||| r.last() == (DbStep::Spawn { key: JobKey::Timeline(id), work: Work::Timeline(id) })
        },
{
}

/// A registered job is always run, and run under its own name, so that it ends.
pub proof fn begun_jobs_are_run(cmd: DbCmd, c: DbContext, r: Seq<DbStep>, i: int, k: JobKey)
    requires
        are_steps_of(cmd, c, r),
        0 <= i < r.len(),
        r[i] == DbStep::BeginJob(k),
    ensures
        i + 1 < r.len(),
        r[i + 1] matches DbStep::Spawn { key, work } && key == k,
        job_of(cmd) == Some(k),
{
    if let DbCmd::DeleteSessions(ids) = cmd {
        lemma_delete_steps(ids@, c.kb_dir);
        let d = delete_steps(ids@, c.kb_dir);
        if i < d.len() {
            assert(r[i] == d[i]);
        }
    }
}

/// Deleting sessions deletes every one of them, in their order, each with its mirror
/// where there is a folder; then the list and the number of them are reported.
pub proof fn every_named_session_is_deleted(
    a: Seq<String>,
    b: Seq<String>,
    id: String,
    ids: Vec<String>,
    c: DbContext,
)
    ensures
        delete_steps(a + b, c.kb_dir) == delete_steps(a, c.kb_dir) + delete_steps(b, c.kb_dir),
        delete_steps(seq![id], true) == seq![DbStep::DeleteSession(id), DbStep::RemoveMirror(id)],
        delete_steps(seq![id], false) == seq![DbStep::DeleteSession(id)],
        ({
            let r = steps_of(DbCmd::DeleteSessions(ids), c);
            let n = delete_steps(ids@, c.kb_dir).len();
            &&& r.len() == n + 2
            &&& r.take(n as int) == delete_steps(ids@, c.kb_dir)
            &&& r[n as int] == DbStep::SendSessions
            &&& r.last() == DbStep::NoticeDeleted(ids@.len() as usize)
        }),
    decreases b.len(),
{
    let one = seq![id];
    assert(one.drop_last() =~= Seq::empty());
    assert(delete_steps(one.drop_last(), true) =~= Seq::<DbStep>::empty());
    assert(delete_steps(one.drop_last(), false) =~= Seq::<DbStep>::empty());
    assert(delete_steps(one, true) =~= seq![DbStep::DeleteSession(id), DbStep::RemoveMirror(id)]);
    assert(delete_steps(one, false) =~= seq![DbStep::DeleteSession(id)]);
    let r = steps_of(DbCmd::DeleteSessions(ids), c);
    assert(r.take(delete_steps(ids@, c.kb_dir).len() as int) =~= delete_steps(ids@, c.kb_dir));
    if b.len() == 0 {
        assert(a + b =~= a);
        assert(delete_steps(a, c.kb_dir) + delete_steps(b, c.kb_dir) =~= delete_steps(a, c.kb_dir));
    } else {
        assert((a + b).drop_last() =~= a + b.drop_last());
        every_named_session_is_deleted(a, b.drop_last(), id, ids, c);
        assert(delete_steps(a + b, c.kb_dir) =~= delete_steps(a, c.kb_dir) + delete_steps(
            b,
            c.kb_dir,
        ));
    }
}

/// Opening a session reports everything that belongs to it, the transcript first, and
/// nothing of any other session.
pub proof fn loading_reports_the_whole_session(id: String, c: DbContext)
    ensures
        ({
            let r = steps_of(DbCmd::Load(id), c);
            &&& r[0] == DbStep::SendTranscript(id)
            &&& r.len() == 11
            &&& r.contains(DbStep::SendSpeakers(id))
            &&& r.contains(DbStep::SendSummary(id))
            &&& r.contains(DbStep::SendCompressed(id))
            &&& r.contains(DbStep::SendNotes(id))
            &&& r.contains(DbStep::SendDiarizeSpeakers(id))
            &&& r.contains(DbStep::SendAudioFiles(id))
            &&& r.contains(DbStep::SendMeSpeaker(id))
            &&& r.contains(DbStep::SendStats(id))
            &&& r.contains(DbStep::SendBookmarks(id))
            &&& r.contains(DbStep::SendMoments(id))
        }),
{
    let r = load_steps(id);
    assert(r[1] == DbStep::SendSpeakers(id));
    assert(r[2] == DbStep::SendSummary(id));
    assert(r[3] == DbStep::SendCompressed(id));
    assert(r[4] == DbStep::SendNotes(id));
    assert(r[5] == DbStep::SendDiarizeSpeakers(id));
    assert(r[6] == DbStep::SendAudioFiles(id));
    assert(r[7] == DbStep::SendMeSpeaker(id));
    assert(r[8] == DbStep::SendStats(id));
    assert(r[9] == DbStep::SendBookmarks(id));
    assert(r[10] == DbStep::SendMoments(id));
}

/// A change is stored first, as it was asked for, and what shows it is reported after it.
pub proof fn changes_are_stored_and_reported(
    id: String,
    text: String,
    title: Option<String>,
    speaker: i32,
    c: DbContext,
)
    ensures
        ({
            let r = steps_of(DbCmd::DeleteSession(id), c);
            &&& r[0] == DbStep::DeleteSession(id) && r[1] == DbStep::SendSessions
            &&& c.kb_dir ==> r.len() == 3 && r[2] == DbStep::RemoveMirror(id)
            &&& !c.kb_dir ==> r.len() == 2
        }),
        ({
            let r = steps_of(DbCmd::ClearSummary(id), c);
            &&& r[0] == DbStep::ClearSummary(id) && r.last() == DbStep::SendSessions
            &&& r[1] == DbStep::SendNoSummary
        }),
        ({
            let r = steps_of(DbCmd::ClearCompressed(id), c);
            &&& r[0] == DbStep::ClearCompressed(id) && r.last() == DbStep::SendSessions
            &&& r[1] == DbStep::SendNoCompressed
        }),
        ({
            let r = steps_of((DbCmd::RenameSpeaker { id, speaker, name: text }), c);
            &&& r[0] == (DbStep::SetSpeakerName { id, speaker, name: text })
            &&& r.last() == DbStep::SendSpeakers(id)
            &&& (r.len() == 3 <==> c.learn_voices && !is_blank(text@))
            &&& r.len() == 3 ==> r[1] == (DbStep::EnrollVoice { id, speaker, name: text })
            &&& r.len() == 2 || r.len() == 3
        }),
        ({
            let r = steps_of((DbCmd::SetNotes { id, notes: text }), c);
            r.len() == 1 && r[0] == (DbStep::SetNotes { id, notes: text })
        }),
        ({
            let r = steps_of(DbCmd::SaveOverviewDoc(text), c);
            &&& r[0] == DbStep::WriteOverview(text) && r[1] == DbStep::SendOverview
            &&& c.kb_dir ==> r.len() == 3 && r[2] == (DbStep::MirrorOverview { report: false })
            &&& !c.kb_dir ==> r.len() == 2
        }),
        ({
            let r = steps_of(DbCmd::RevertOverviewDoc, c);
            &&& r[0] == DbStep::SwapOverview && r[1] == DbStep::SendOverview
            &&& c.kb_dir ==> r.len() == 3 && r[2] == (DbStep::MirrorOverview { report: false })
            &&& !c.kb_dir ==> r.len() == 2
        }),
{
}

/// Work that takes long is run as the job of its command, on the session and with the
/// bounds that the command names.
pub proof fn long_work_is_run_as_asked(
    id: String,
    paths: Vec<String>,
    start_ms: u64,
    end_ms: u64,
    n: i32,
    ignore_age: bool,
    c: DbContext,
)
    ensures
        steps_of(DbCmd::ExportAudio(id), c).last() matches DbStep::Spawn { key, work } && Some(key)
            == job_of(DbCmd::ExportAudio(id)) && work == Work::ExportAudio(id),
        steps_of((DbCmd::CompressAudio { ignore_age }), c).last() matches DbStep::Spawn { key, work }
            && Some(key) == job_of((DbCmd::CompressAudio { ignore_age })) && work == (
        Work::CompressAudio { ignore_age }),
        steps_of((DbCmd::Retranscribe(id)), c).last() matches DbStep::Spawn { key, work } && Some(
            key,
        ) == job_of(DbCmd::Retranscribe(id)) && work == Work::Retranscribe(id),
        !c.running ==> {
            let cmd = DbCmd::ExportClip { id, paths, start_ms, end_ms };
            steps_of(cmd, c).last() matches DbStep::Spawn { key, work } && Some(key) == job_of(cmd)
                && work == (Work::ExportClip { id, paths, start_ms, end_ms })
        },
        !c.running ==> {
            let cmd = DbCmd::RetranscribeRange { id, start_ms, end_ms };
            steps_of(cmd, c).last() matches DbStep::Spawn { key, work } && Some(key) == job_of(cmd)
                && work == (Work::RetranscribeRange { id, start_ms, end_ms })
        },
        !c.running && c.kb_dir ==> {
            let r = steps_of(DbCmd::KbExportAll, c);
            r[0] == DbStep::MakeFolder && r.last() == (DbStep::Spawn {
                key: JobKey::KbExport,
                work: Work::KbExport,
            })
        },
        !c.running && !c.kb_dir ==> steps_of(DbCmd::KbExportAll, c) == seq![DbStep::NoticeNoFolder],
        !c.running && c.tracks > 0 && !c.kept ==> steps_of(DbCmd::LoadTimeline(id), c).last() == (
        DbStep::Spawn { key: JobKey::Timeline(id), work: Work::Timeline(id) }),
        c.kb_dir ==> steps_of((DbCmd::KbMirror { session_id: Some(id) }), c) == seq![
            (DbStep::MirrorSession { id, report: true }),
        ] && steps_of((DbCmd::KbMirror { session_id: None }), c) == seq![
            (DbStep::MirrorOverview { report: true }),
        ],
{
}

/// A search looks for the trimmed text in the notes and for its terms in the
/// transcripts; white space alone clears both lists.
pub proof fn searches_look_everywhere(raw: Seq<char>, r: Seq<DbStep>)
    requires
        is_search_steps(raw, r),
    ensures
        r.len() == 2,
        trimmed(raw).len() == 0 <==> r[1] == DbStep::SendNoNoteHits,
        trimmed(raw).len() == 0 || fts_query(trimmed(raw)).len() == 0 <==> r[0]
            == DbStep::SendNoHits,
        r[1] matches DbStep::SearchNotes(n) ==> n@ == trimmed(raw),
        r[0] matches DbStep::SearchTranscripts(q) ==> q@ == fts_query(trimmed(raw)),
{
}

} // verus!
