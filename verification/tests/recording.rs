use zord_gui::db::{command_job, db_steps, search_steps, DbContext, DbStep, Work};
use zord_gui::diarize::{
    assignments, best_speaker, diarize_end, diarize_outcome, diarize_session_inner, enrolled_text,
    enrolls, identified_text, labelled_speakers, overlap_ms, pinned_speakers, recognized_text,
    DiarizeBail, DiarizeInput, DiarizeOutcome, DiarizeStep, Span,
};
use zord_gui::gate::{try_unlock, Gate, GateFacts, GateFlags, GateStep};
use zord_gui::job_keys::JobKey;
use zord_gui::jobs::Jobs;
use zord_gui::model::{
    AnalyzeCmd, DbCmd, EmbedCmd, Event, Features, ModelInfo, PlayCmd, RecorderCmd, Segment,
    Session, SessionStats, Source, SpeakerStats, TimelineLane,
};
use zord_gui::models::{
    catalog, delete_steps, download_steps, remote_models, CatalogParts, KnownAs, ModelStep,
};
use zord_gui::pipeline::{
    create_failed_text, finalize_failed_text, muted_frame, pad_to_wallclock, Channel,
};
use zord_gui::playback::{LineOutcome, MixOutcome, PlayNotice, PlayStep, Player};
use zord_gui::profile::{profile_data, profile_source, talk_row, Appearance};
use zord_gui::recording::{
    back_offset_ms, build_integration_provider, capture_notice, control_steps, end_notice,
    finished_line, integration_wait, no_app_notice, phrase_bookmark, read_user, session_id_at,
    session_plan, stop_facts, stop_first, stop_integration, stop_last, trouble_report,
    wait_for_stop, ControlStep, IntegrationEnd, IntegrationInput, JoinStep, Provider,
    ProviderError, Roster, SessionOpts, StopStep, Trouble, WaitStep,
};
use zord_gui::settings::Settings;
use zord_gui::tracks::{
    clip_name, compressed_length, fingerprint, merged_name, range_text, resolved_tracks,
    session_audio_files,
    speaker_tracks, stamp_speaker, sweep_file, timeline_lane, timeline_plan, track_index,
    track_source, track_suffixes, verified_length, wants_compression, Clip, ClipError, SweepFile,
    TimelineCache, TimelinePlan,
};
use zord_gui::transcribe::{
    finish_steps, progress_pct, range_first, range_last, retranscribe_first, retranscribe_last,
    start_steps, track_failed_text, transcribed_text, transcribing_text, worker_cap, RangeStep,
    RetranscribeFacts, RetranscribeStep, TrackRun, TranscribeStep,
};
use zord_gui::workers::{
    analyze_key, analyze_task, audio_report, backfill_steps, backfill_text, crash_text, embed_task,
    fetch_notices, moment_work, track_holds, utterance_end, wants_fetch, AnalyzeTask,
    AudioMove, AudioReport, AudioSweep, BackfillFacts, BackfillStep, EmbedTask, FetchAnswer, Index, MomentWork, Sweep,
};

fn settings() -> Settings {
    Settings {
        model: "base".to_string(),
        retranscribe_model: "large".to_string(),
        live_transcription: true,
        auto_transcribe: true,
        transcribe_workers: 1,
        keep_audio: false,
        input_device: None,
        capture_mode: "both".to_string(),
        capture_app_id: String::new(),
        capture_app_name: String::new(),
        capture_mode_before_app: "both".to_string(),
        mic_level_mode: "off".to_string(),
        others_level_mode: "off".to_string(),
        mic_gain_db: 0,
        others_gain_db: 0,
        auto_delete_days: None,
        compress_after_days: None,
        compress_quality: "standard".to_string(),
        kb_export_dir: String::new(),
        llm_backend: "local".to_string(),
        llm_base_url: String::new(),
        llm_api_key: String::new(),
        llm_model: String::new(),
        llm_timeout_secs: 60,
        summary_model: String::new(),
        summary_preset: "default".to_string(),
        summary_prompt: None,
        auto_title: true,
        compress_ctx: 16384,
        overview_auto: false,
        overview_ctx: 16384,
        diarize_auto: false,
        diarize_live: false,
        diarize_num_speakers: 0,
        diarize_threshold: 0,
        diarize_segmentation_model: String::new(),
        diarize_embedding_model: String::new(),
        voiceprints_enabled: false,
        bookmark_phrases: Vec::new(),
        bookmark_back_offset_secs: 0,
        discord_bot_token: String::new(),
        discord_user_id: String::new(),
        discord_announce: false,
        discord_record_button: true,
        encrypted: false,
        encrypt_pending: false,
        decrypt_pending: false,
        theme_accent: String::new(),
        theme_me: String::new(),
        theme_others: String::new(),
        badge_tint: true,
        check_updates: true,
        setup_complete: true,
        sidebar_width: 280,
    }
}

fn features() -> Features {
    Features {
        llm_remote: false,
        llm_local: false,
        diarization: false,
        voiceprints: false,
        semantic: false,
        sentiment: false,
        discord: false,
        self_update: false,
        parakeet: false,
        encryption: false,
    }
}


fn line(source: Source, speaker: Option<i32>, start: u64, end: u64) -> Segment {
    Segment {
        id: Some(start as i64 + 1),
        source,
        t_start_ms: start,
        t_end_ms: end,
        text: format!("line at {start}"),
        speaker,
    }
}

fn opts(keep_audio: bool, live: bool) -> SessionOpts {
    SessionOpts {
        model: "base".into(),
        keep_audio,
        input_device: None,
        audio_dir: "/audio".into(),
        record_mic: true,
        record_system: true,
        live,
    }
}

fn start(mic: bool, system: bool, integration: bool) -> RecorderCmd {
    RecorderCmd::Start {
        model: "base".into(),
        keep_audio: false,
        input_device: None,
        audio_dir: "/audio".into(),
        record_mic: mic,
        record_system: system,
        live: true,
        integration,
    }
}

#[test]
fn recordings_always_have_a_source() {
    let steps = control_steps(start(false, false, false), true, false);
    assert!(matches!(steps[0], ControlStep::StopMicTest));
    match &steps[1] {
        ControlStep::RunSession(o) => assert!(o.record_mic && o.record_system),
        other => panic!("{other:?}"),
    }
    let steps = control_steps(start(true, false, false), false, true);
    assert!(matches!(&steps[..], [ControlStep::RunIntegration(o)] if o.record_mic && !o.record_system));
    let steps = control_steps(RecorderCmd::MicTestStart { device: None }, true, false);
    assert!(matches!(&steps[..], [ControlStep::StopMicTest, ControlStep::StartMicTest { .. }]));
    assert!(control_steps(RecorderCmd::MicTestStop, false, false).is_empty());
    assert!(control_steps(RecorderCmd::Stop, false, false).is_empty());
    assert!(control_steps(RecorderCmd::DropBookmark, true, false).is_empty());
    assert!(matches!(&control_steps(RecorderCmd::Shutdown, false, false)[..], [ControlStep::Quit]));
}

#[test]
fn running_sessions_take_mutes_bookmarks_and_stops() {
    assert_eq!(wait_for_stop(None, 0, 0), WaitStep::End { shutdown: false });
    assert_eq!(wait_for_stop(Some(RecorderCmd::Stop), 0, 0), WaitStep::End { shutdown: false });
    assert_eq!(wait_for_stop(Some(RecorderCmd::Shutdown), 0, 0), WaitStep::End { shutdown: true });
    assert_eq!(wait_for_stop(Some(RecorderCmd::SetMicMuted(true)), 0, 0), WaitStep::MuteMic(true));
    assert_eq!(wait_for_stop(Some(RecorderCmd::DropBookmark), 9_000, 5_000), WaitStep::Bookmark(4_000));
    assert_eq!(wait_for_stop(Some(RecorderCmd::DropBookmark), 1_000, 5_000), WaitStep::Bookmark(0));
    assert_eq!(wait_for_stop(Some(start(true, true, false)), 0, 0), WaitStep::Ignore);
    assert_eq!(
        integration_wait(IntegrationInput::Command(RecorderCmd::SetMicMuted(true)), 0, 0),
        WaitStep::Ignore
    );
    assert_eq!(
        integration_wait(IntegrationInput::Quiet { ended: true }, 0, 0),
        WaitStep::End { shutdown: false }
    );
    assert_eq!(integration_wait(IntegrationInput::Quiet { ended: false }, 0, 0), WaitStep::Ignore);
    assert_eq!(
        integration_wait(IntegrationInput::Command(RecorderCmd::DropBookmark), 9, 4),
        WaitStep::Bookmark(5)
    );
}

#[test]
fn captures_write_every_channel() {
    let p = session_plan(&opts(false, false), &settings(), features());
    assert!(p.persist_audio && p.me_wav && p.others_wav);
    let p = session_plan(&opts(false, true), &settings(), features());
    assert!(!p.persist_audio && !p.me_wav && !p.others_wav && !p.writes_audio);
    // The pass that tells speakers apart needs the others' track for a while.
    let mut s = settings();
    s.diarize_auto = true;
    let mut f = features();
    f.diarization = true;
    let p = session_plan(&opts(false, true), &s, f);
    assert!(p.diarize_auto && p.others_wav && p.writes_audio && !p.persist_audio && !p.me_wav);
    s.capture_mode = "app".into();
    let p = session_plan(&opts(true, true), &s, f);
    assert!(p.warn_no_app && p.app_target.is_none());
    assert!(no_app_notice(&p).unwrap().starts_with("no app selected"));
    s.capture_app_id = "zoom".into();
    let p = session_plan(&opts(true, true), &s, f);
    assert_eq!(p.app_target.as_deref(), Some("zoom"));
    assert!(no_app_notice(&p).is_none());
    assert_eq!(session_id_at(1_749_718_800_123), "sess-1749718800123");
    assert!(capture_notice(true).is_none());
    assert!(capture_notice(false).unwrap().starts_with("Recording (capture only)"));
}

#[test]
fn untranscribed_captures_stay_on_disk() {
    let mut s = settings();
    let plan = session_plan(&opts(false, false), &s, features());
    let f = stop_facts(&opts(false, false), &plan, &s, features(), false, false);
    // The pass after the recording gave a transcript: the capture may go.
    assert_eq!(
        stop_first(f),
        [StopStep::EndSession, StopStep::ReportIdle, StopStep::PostTranscribe]
    );
    assert_eq!(stop_last(f, false, true), [StopStep::PurgeCapture]);
    // It gave nothing: the capture stays.
    assert!(stop_last(f, false, false).is_empty());
    // It is deferred: the capture stays, and the user is told.
    s.auto_transcribe = false;
    let f = stop_facts(&opts(false, false), &plan, &s, features(), false, true);
    assert_eq!(
        stop_first(f),
        [
            StopStep::NoticeCrash,
            StopStep::EndSession,
            StopStep::ReportIdle,
            StopStep::NoticeDeferred
        ]
    );
    assert!(stop_last(f, false, false).is_empty());
    assert!(StopStep::NoticeDeferred.notice().unwrap().starts_with("Recording saved"));
    assert!(StopStep::NoticeCrash.notice().unwrap().contains("crash.log"));
    assert!(StopStep::Fold.notice().is_none());
}

#[test]
fn speakers_come_before_the_compression_and_the_fold() {
    let mut s = settings();
    s.diarize_auto = true;
    s.overview_auto = true;
    s.summary_model = "m".into();
    let mut f = features();
    f.diarization = true;
    f.llm_local = true;
    f.semantic = true;
    f.sentiment = true;
    let plan = session_plan(&opts(true, true), &s, f);
    let facts = stop_facts(&opts(true, true), &plan, &s, f, true, false);
    assert_eq!(
        stop_last(facts, false, true),
        [
            StopStep::Diarize,
            StopStep::Compress,
            StopStep::Fold,
            StopStep::Embed,
            StopStep::Analyze
        ]
    );
    assert!(!stop_last(facts, true, true).contains(&StopStep::Compress));
    // A temporary track goes in the end.
    let plan = session_plan(&opts(false, true), &s, f);
    let facts = stop_facts(&opts(false, true), &plan, &s, f, true, false);
    assert_eq!(stop_last(facts, true, true).last(), Some(&StopStep::RemoveTemporary));
    f.voiceprints = true;
    let facts = stop_facts(&opts(false, true), &plan, &s, f, true, false);
    assert_eq!(
        stop_integration(facts, true),
        [
            StopStep::Fold,
            StopStep::Embed,
            StopStep::Analyze,
            StopStep::EnrollVoices,
            StopStep::ReportSpeakers,
            StopStep::ReportSessions
        ]
    );
}

#[test]
fn troubles_are_reported() {
    assert_eq!(trouble_report(Trouble::Model, "404"), ("model: 404".to_string(), true));
    assert_eq!(trouble_report(Trouble::Database, "x").0, "db: x");
    assert_eq!(
        trouble_report(Trouble::SystemAudio, "denied"),
        ("System audio off: denied".to_string(), false)
    );
    assert_eq!(trouble_report(Trouble::Transcriber, "x"), ("whisper: x".to_string(), true));
    assert_eq!(trouble_report(Trouble::Transcribing, "x").0, "transcribe error: x");
    assert!(trouble_report(Trouble::Microphone { mac: true }, "x").0.contains("System Settings"));
    assert!(!trouble_report(Trouble::MicTest { mac: false }, "x").1);
}

#[test]
fn lines_take_the_best_speaker() {
    let seg = line(Source::Others, None, 10_000, 11_000);
    assert_eq!(finished_line(seg.clone(), Some(4), Some(7)).speaker, Some(4));
    assert_eq!(finished_line(seg.clone(), None, Some(7)).speaker, Some(7));
    let own = line(Source::Others, Some(2), 0, 1);
    assert_eq!(finished_line(own, None, Some(7)).speaker, Some(2));
    assert_eq!(
        phrase_bookmark(&seg, Some("note that".into()), 3_000),
        Some((7_000, "note that".to_string()))
    );
    assert_eq!(phrase_bookmark(&seg, None, 3_000), None);
    let mut s = settings();
    s.bookmark_back_offset_secs = 5;
    assert_eq!(back_offset_ms(&s), 5_000);
}

#[test]
fn the_provider_needs_its_credentials() {
    let mut f = features();
    let build = |token: &str, user: Option<u64>, fake: bool, env: Option<&str>, env_user, f| {
        build_integration_provider(
            token.to_string(),
            user,
            true,
            fake,
            env.map(|s| s.to_string()),
            env_user,
            f,
        )
    };
    assert!(matches!(build("", None, false, None, None, f), Ok(Provider::Fake)));
    f.discord = true;
    assert!(matches!(build("t", Some(1), true, None, None, f), Ok(Provider::Fake)));
    assert!(matches!(build("", Some(1), false, None, None, f), Err(ProviderError::NoToken)));
    assert!(matches!(build("", Some(1), false, Some(""), None, f), Err(ProviderError::NoToken)));
    assert!(matches!(build("t", None, false, None, None, f), Err(ProviderError::NoUser)));
    match build("", None, false, Some("env"), Some(9), f) {
        Ok(p) => {
            assert!(p.announcement().unwrap().starts_with("🔴 Zord is recording"));
            assert!(matches!(p, Provider::Discord { ref token, user: 9, .. } if token == "env"));
        }
        Err(e) => panic!("{e:?}"),
    }
    assert!(Provider::Fake.announcement().is_none());
    assert!(ProviderError::NoToken.text().starts_with("no Discord bot token"));
    assert!(ProviderError::NoUser.text().starts_with("no Discord user ID"));
    assert_eq!(read_user(" 268473310986240001 "), Some(268_473_310_986_240_001));
    assert_eq!(read_user("me"), None);
}

#[test]
fn whoever_comes_back_keeps_their_track() {
    let mut r = Roster::new();
    assert_eq!(
        r.join(3, true),
        [JoinStep::Announce(3), JoinStep::TagMe(3), JoinStep::Open(3), JoinStep::Bridge(3)]
    );
    assert_eq!(
        r.join(5, false),
        [JoinStep::Announce(5), JoinStep::Open(5), JoinStep::Bridge(5)]
    );
    assert_eq!(r.join(3, true), [JoinStep::Announce(3), JoinStep::TagMe(3), JoinStep::Bridge(3)]);
}

#[test]
fn only_errors_are_noticed_at_the_end() {
    let end = |error| IntegrationEnd::Platform { reason: "left".into(), error };
    assert_eq!(end_notice(&end(true)).as_deref(), Some("Discord: left"));
    assert_eq!(end_notice(&end(false)), None);
    assert_eq!(end_notice(&IntegrationEnd::Stopped), None);
    assert!(end_notice(&IntegrationEnd::Disconnected).unwrap().contains("unexpectedly"));
    assert_eq!(
        end_notice(&IntegrationEnd::Failed("x".into())).as_deref(),
        Some("integration error: x")
    );
}

#[test]
fn channels_catch_up_with_the_clock() {
    let mut c = Channel::new(true);
    let out = c.take(2_000, vec![5u8; 100], 1_000, 0);
    assert_eq!(out.len(), 2_000);
    assert_eq!(c.produced, 2_000);
    assert!(out[..1_900].iter().all(|s| *s == 0) && out[1_900..].iter().all(|s| *s == 5));
    // A second channel that lagged more is at the same place.
    let mut d = Channel::new(true);
    d.take(2_000, vec![5u8; 7], 1_000, 0);
    assert_eq!(d.produced, c.produced);
    // At most five minutes at once.
    assert_eq!(pad_to_wallclock(1_000_000, 0, Vec::<u8>::new(), 100, 0).len(), 30_000);
    // A rate of zero counts as one.
    assert_eq!(pad_to_wallclock(10_000, 0, Vec::<u8>::new(), 0, 0).len(), 10);
    assert_eq!(muted_frame(true, vec![1u8, 2], 0), vec![0, 0]);
    assert_eq!(muted_frame(false, vec![1u8, 2], 0), vec![1, 2]);
}

#[test]
fn meters_and_tracks_report_sparingly() {
    let mut c = Channel::new(true);
    assert!(!c.level_due(32_999_999));
    assert!(c.level_due(33_000_000));
    assert!(!c.level_due(40_000_000));
    assert_eq!(
        c.write_failed("me", "disk full").as_deref(),
        Some("writing the me audio file failed: disk full — audio saving stopped (transcription continues)")
    );
    assert_eq!(c.write_failed("me", "disk full"), None);
    assert!(create_failed_text("me", "x").ends_with("recording continues without saved audio"));
    assert!(finalize_failed_text("me", "x").ends_with("the saved track may be unreadable"));
}

#[test]
fn runs_start_every_track_once() {
    let mut r = TrackRun::new(3, 1, 0);
    assert!(!r.parallel);
    assert_eq!(r.next_track(false), Some(0));
    assert_eq!(r.next_track(false), Some(1));
    assert_eq!(r.next_track(true), None);
    assert_eq!(r.next_track(false), Some(2));
    assert_eq!(r.next_track(false), None);
    // One at a time, the first track is started even if the run is cancelled.
    assert_eq!(TrackRun::new(3, 1, 0).next_track(true), Some(0));
    assert_eq!(TrackRun::new(3, 4, 0).next_track(true), None);
    let mut s = settings();
    s.transcribe_workers = 9;
    assert_eq!(worker_cap(&s), 4);
}

#[test]
fn cancelled_runs_keep_what_was_stored() {
    let seg = line(Source::Others, None, 0, 1);
    let mut r = TrackRun::new(2, 1, 0);
    let (l, push) = r.line(false, seg.clone(), Some(3), 100).unwrap();
    assert_eq!((l.speaker, push), (Some(3), false));
    let (_, push) = r.line(false, seg.clone(), None, 700_000_000).unwrap();
    assert!(push);
    assert!(r.line(true, seg.clone(), None, 0).is_none());
    r.track_done(2);
    assert_eq!(r.total, 2);
    let mut r = TrackRun::new(2, 2, 0);
    assert!(r.line(true, seg, None, 0).is_some());
    r.track_done(5);
    assert_eq!(r.total, 1);
}

#[test]
fn lines_go_once_the_model_has_loaded() {
    assert_eq!(
        start_steps(true),
        vec![TranscribeStep::ClearLines, TranscribeStep::ReportEmpty, TranscribeStep::SetModel]
    );
    assert_eq!(start_steps(false), vec![]);
}

#[test]
fn runs_end_with_a_report() {
    assert_eq!(finish_steps(0, true), (vec![TranscribeStep::NoticeNothing], false));
    let (steps, ok) = finish_steps(3, true);
    assert!(ok && steps.contains(&TranscribeStep::Mirror));
    assert_eq!(steps.last(), Some(&TranscribeStep::Stats));
    assert!(!finish_steps(3, false).0.contains(&TranscribeStep::Mirror));
    assert_eq!(transcribed_text(2, "base"), "Transcribed 2 segment(s) with base.");
    assert!(transcribed_text(0, "base").starts_with("No speech found"));
    assert_eq!(transcribing_text("base"), "Transcribing with base… (first run downloads the model)");
    assert_eq!(track_failed_text("me", "x"), "transcribing me: x");
    assert_eq!(progress_pct(50, Some(200)), Some(25));
    assert_eq!(progress_pct(50, Some(0)), None);
    assert_eq!(progress_pct(50, None), None);
}

#[test]
fn new_transcripts_restore_their_speakers() {
    let facts = RetranscribeFacts {
        had_speakers: true,
        first: false,
        diarize_auto: false,
        cancelled: false,
        models_present: true,
    };
    let mut f = features();
    f.diarization = true;
    f.semantic = true;
    f.sentiment = true;
    assert_eq!(
        retranscribe_last(true, facts, f),
        [
            RetranscribeStep::ReportSpeakers,
            RetranscribeStep::Rediarize,
            RetranscribeStep::Embed,
            RetranscribeStep::Analyze,
            RetranscribeStep::Done
        ]
    );
    assert_eq!(
        retranscribe_last(false, facts, f),
        [RetranscribeStep::ReportSpeakers, RetranscribeStep::Done]
    );
    let first = RetranscribeFacts { had_speakers: false, first: true, ..facts };
    assert!(!retranscribe_last(true, first, f).contains(&RetranscribeStep::Rediarize));
    assert_eq!(
        retranscribe_first(false),
        [RetranscribeStep::NoticeNoAudio, RetranscribeStep::Done]
    );
    assert_eq!(retranscribe_first(true), [RetranscribeStep::Transcribe]);
    assert_eq!(range_first(false, 2), RangeStep::NoticeNoAudio);
    assert_eq!(range_first(true, 0), RangeStep::NoticeNoTracks);
    assert_eq!(range_first(true, 2), RangeStep::Run);
    assert_eq!(range_last(true), [RangeStep::NoticeCancelled]);
    assert_eq!(range_last(false)[0], RangeStep::Replace);
    assert_eq!(range_text(2, 3), "Selection re-transcribed: removed 2 segment(s), added 3.");
}

#[test]
fn lines_go_to_the_span_that_covers_them() {
    assert_eq!(overlap_ms(0, 10, 5, 20), 5);
    assert_eq!(overlap_ms(0, 5, 5, 20), 0);
    assert_eq!(overlap_ms(9, 3, 0, 20), 0);
    let spans = vec![
        Span { speaker: 0, start_ms: 0, end_ms: 600 },
        Span { speaker: 1, start_ms: 600, end_ms: 1_200 },
        Span { speaker: 2, start_ms: 1_200, end_ms: 1_300 },
    ];
    assert_eq!(best_speaker(&line(Source::Others, None, 0, 1_000), &spans), Some(0));
    // Of two that cover the same, the later one is taken.
    assert_eq!(best_speaker(&line(Source::Others, None, 0, 1_200), &spans), Some(1));
    assert_eq!(best_speaker(&line(Source::Others, None, 5_000, 6_000), &spans), None);
    let segs = vec![
        line(Source::Others, None, 0, 500),
        line(Source::Me, None, 0, 500),
        line(Source::Others, None, 700, 900),
    ];
    assert_eq!(assignments(&segs, &spans), vec![(1, 0), (701, 1)]);
    assert_eq!(labelled_speakers(&vec![(1, 5), (2, 2), (3, 5)]), vec![2, 5]);
    match diarize_outcome(&segs, &spans) {
        DiarizeOutcome::Replace { labels, speakers } => {
            assert_eq!((labels.len(), speakers), (2, 2))
        }
        other => panic!("{other:?}"),
    }
    assert!(matches!(diarize_outcome(&segs, &Vec::new()), DiarizeOutcome::NoSpeakers));
    let mine = vec![line(Source::Me, None, 0, 500)];
    assert!(matches!(diarize_outcome(&mine, &spans), DiarizeOutcome::NoMatch));
}

#[test]
fn runs_over_speakers_say_why_they_stop() {
    let i = |session, audio, track| diarize_session_inner(DiarizeInput { session, audio, track });
    assert_eq!(i(false, true, true), Err(DiarizeBail::NoSession));
    assert_eq!(i(true, false, true), Err(DiarizeBail::NoAudio));
    assert_eq!(i(true, true, false), Err(DiarizeBail::NoTrack));
    assert_eq!(i(true, true, true), Ok(()));
    for b in [
        DiarizeBail::NotBuilt,
        DiarizeBail::NoSession,
        DiarizeBail::NoAudio,
        DiarizeBail::NoTrack,
        DiarizeBail::EmptyTrack,
        DiarizeBail::NoSpeakers,
        DiarizeBail::NoMatch,
        DiarizeBail::Crashed,
    ] {
        assert!(b.text().ends_with('.'));
    }
    assert_eq!(diarize_end(true, false), [DiarizeStep::NoticeCrash, DiarizeStep::ReportEnd]);
    assert!(diarize_end(false, true).is_empty());
    assert_eq!(pinned_speakers(Some(0), 4), None);
    assert_eq!(pinned_speakers(None, 4), Some(4));
    assert_eq!(identified_text(2), "Identified 2 speaker(s) in this conversation.");
}

#[test]
fn voices_are_learned_under_real_names() {
    assert!(enrolls(&Some("Ada".into()), 48_000));
    assert!(!enrolls(&Some("Ada".into()), 47_999));
    assert!(!enrolls(&Some("Speaker 2".into()), 90_000));
    assert!(!enrolls(&None, 90_000));
    assert_eq!(enrolled_text(0), None);
    assert_eq!(enrolled_text(2).as_deref(), Some("Saved voiceprints for 2 Discord speaker(s)."));
    assert_eq!(recognized_text(&Vec::new()), None);
    assert_eq!(
        recognized_text(&vec![("Ada".into(), 91), ("Bob".into(), 80)]).as_deref(),
        Some("Recognized Ada (91% match), Bob (80% match).")
    );
}

fn model(name: &str) -> ModelInfo {
    ModelInfo {
        name: name.into(),
        size: "1 GB".into(),
        description: "d".into(),
        downloaded: false,
        kind: String::new(),
        urls: Vec::new(),
    }
}

#[test]
fn the_catalog_lists_what_is_built_in() {
    let parts = || CatalogParts {
        transcription: vec![model("t")],
        summary: vec![model("s")],
        registry: vec![model("r")],
        custom: vec!["c.gguf".into()],
        diarization: vec![model("d")],
    };
    let mut f = features();
    assert_eq!(catalog(parts(), f).len(), 1);
    f.llm_local = true;
    f.diarization = true;
    let all = catalog(parts(), f);
    let got: Vec<(&str, &str)> = all.iter().map(|m| (m.name.as_str(), m.kind.as_str())).collect();
    assert_eq!(
        got,
        [
            ("t", "transcription"),
            ("s", "summary"),
            ("r", "summary"),
            ("c.gguf", "summary"),
            ("d", "diarization")
        ]
    );
    assert!(all[3].downloaded && all[3].size == "local");
}

#[test]
fn downloads_go_to_the_right_place() {
    let mut f = features();
    f.llm_local = true;
    f.diarization = true;
    let k = KnownAs { summary: false, registry: false, diarization: false, transcription: true };
    assert_eq!(download_steps(k, f), [ModelStep::Transcription, ModelStep::ReportModels]);
    let k = KnownAs { registry: true, ..k };
    assert_eq!(download_steps(k, f), [ModelStep::Registry, ModelStep::ReportModels]);
    assert_eq!(
        delete_steps(k, f),
        [ModelStep::Custom, ModelStep::Transcription, ModelStep::ReportModels]
    );
    assert!(matches!(
        remote_models(None),
        Event::RemoteModels { ref models, error: Some(ref e) } if models.is_empty() && e == "summaries aren't built in"
    ));
    assert!(matches!(
        remote_models(Some(Ok(vec!["m".into()]))),
        Event::RemoteModels { error: None, .. }
    ));
}

#[test]
fn index_workers_wait_for_their_models() {
    assert!(matches!(embed_task(EmbedCmd::EmbedSession("a".into()), false, false), EmbedTask::Skip));
    assert!(matches!(embed_task(EmbedCmd::Query("q".into()), false, false), EmbedTask::NoResults));
    assert!(matches!(
        embed_task(EmbedCmd::BackfillAll, false, false),
        EmbedTask::Backfill { fetch: true }
    ));
    assert!(matches!(embed_task(EmbedCmd::BackfillAll, true, true), EmbedTask::Skip));
    let one = || AnalyzeCmd::AnalyzeSession("a".into());
    assert!(matches!(analyze_task(one(), false, true, false), AnalyzeTask::Skip));
    assert!(matches!(analyze_task(one(), true, false, false), AnalyzeTask::Analyze(_)));
    assert!(matches!(
        analyze_task(AnalyzeCmd::BackfillAll, true, false, false),
        AnalyzeTask::Backfill { fetch: true }
    ));
    assert_eq!(analyze_key(&one()).id(), "sentiment:a");
    assert!(wants_fetch(None) && wants_fetch(Some(0)) && !wants_fetch(Some(1)));
    assert_eq!(moment_work(false, true), MomentWork::Unknown);
    assert_eq!(moment_work(true, false), MomentWork::Clear);
    assert_eq!(moment_work(true, true), MomentWork::Look);
}

#[test]
fn backfills_end_their_jobs() {
    let f = BackfillFacts { fetch: true, fetched: false, loaded: true, opened: true, missing: 3 };
    assert_eq!(
        backfill_steps(Index::Semantic, f),
        [BackfillStep::NoticeFetching, BackfillStep::EndJob]
    );
    let f = BackfillFacts { fetched: true, ..f };
    assert_eq!(
        backfill_steps(Index::Semantic, f),
        [
            BackfillStep::NoticeFetching,
            BackfillStep::NoticeFetched,
            BackfillStep::NoticeBegin,
            BackfillStep::Run,
            BackfillStep::NoticeEnd,
            BackfillStep::EndJob
        ]
    );
    assert_eq!(
        backfill_text(Index::Semantic, BackfillStep::NoticeEnd, 2, 3).as_deref(),
        Some("Semantic index built (2/3 sessions).")
    );
    assert_eq!(
        backfill_text(Index::Moments, BackfillStep::NoticeBegin, 0, 3).as_deref(),
        Some("Analyzing moments for 3 session(s)…")
    );
    assert_eq!(backfill_text(Index::Moments, BackfillStep::Run, 0, 3), None);
    assert!(crash_text("playback").starts_with("internal error: the playback worker crashed"));
    let (a, b, ok) = fetch_notices(&FetchAnswer::Unavailable, &FetchAnswer::Failed("x".into()));
    assert!(a.unwrap().contains("YAMNet") && !ok);
    assert_eq!(b.as_deref(), Some("Emotion model download failed: x"));
    let (a, b, ok) = fetch_notices(&FetchAnswer::Failed("y".into()), &FetchAnswer::Here);
    assert_eq!((a.as_deref(), b, ok), (Some("YAMNet download failed: y"), None, true));
}

#[test]
fn sweeps_count_what_went_well() {
    let mut s = Sweep::new(3);
    assert_eq!(s.upcoming(false), Some(0));
    s.report(true);
    s.report(false);
    assert_eq!(s.upcoming(true), None);
    assert_eq!(s.upcoming(false), Some(2));
    s.report(true);
    assert_eq!((s.upcoming(false), s.done()), (None, 2));
}

#[test]
fn compressing_counts_sessions_and_bytes() {
    let mut s = AudioSweep::new(3);
    assert_eq!(s.upcoming(false), AudioMove::Session(0));
    s.open(2);
    assert_eq!(s.upcoming(false), AudioMove::Track(0));
    s.report(Some(10));
    assert_eq!(s.upcoming(false), AudioMove::Track(1));
    s.report(Some(5));
    assert_eq!(s.result(), (1, 15));
    // A session without a track that could be compressed is not touched.
    assert_eq!(s.upcoming(false), AudioMove::Session(1));
    s.open(1);
    s.report(None);
    assert_eq!(s.result(), (1, 15));
    // A session that is half done when the run is cancelled is touched.
    assert_eq!(s.upcoming(false), AudioMove::Session(2));
    s.open(2);
    s.report(Some(7));
    assert_eq!(s.upcoming(true), AudioMove::Finish);
    assert_eq!(s.result(), (2, 22));
    s.report(None);
    assert_eq!(s.upcoming(false), AudioMove::Finish);
    assert_eq!(AudioSweep::new(0).upcoming(false), AudioMove::Finish);
    // A track that saves nothing counts as compressed.
    let mut s = AudioSweep::new(1);
    s.open(1);
    s.report(Some(0));
    assert_eq!(s.result(), (1, 0));
    assert_eq!(audio_report(1, false), AudioReport::Reclaimed);
    assert_eq!(audio_report(0, true), AudioReport::Nothing);
    assert_eq!(audio_report(0, false), AudioReport::Silence);
}

#[test]
fn tracks_hold_their_lines() {
    assert!(track_holds(&line(Source::Me, None, 0, 1), "me"));
    assert!(track_holds(&line(Source::Others, None, 0, 1), "others"));
    assert!(!track_holds(&line(Source::Others, Some(1), 0, 1), "others"));
    assert!(track_holds(&line(Source::Others, Some(1), 0, 1), "spk-1"));
    assert!(!track_holds(&line(Source::Others, Some(1), 0, 1), "spk-2"));
    assert_eq!(utterance_end(1_000, 9_000, 5_000), 6_000);
    assert_eq!(utterance_end(1_000, 1_000, 5_000), 1_001);
}

#[test]
fn profiles_gather_what_a_person_said() {
    let stats = SessionStats {
        meeting_ms: 0,
        speech_ms: 0,
        silence_pct: 0,
        quiet: false,
        speakers: vec![SpeakerStats {
            key: "spk-1".into(),
            talk_ms: 0,
            talk_share: 7,
            share_pct: 0,
            dominant: false,
            wpm: 0,
            longest_monologue_ms: 0,
            interruptions_made: 4,
            questions: 0,
        }],
    };
    assert_eq!(talk_row(&Some(stats.clone()), Some(1)), (7, 4));
    assert_eq!(talk_row(&Some(stats.clone()), Some(2)), (0, 0));
    assert_eq!(talk_row(&None, Some(1)), (0, 0));
    let at = |i: u64| Appearance {
        session_id: format!("s{i}"),
        title: None,
        speaker: Some(1),
        started_at: Some(i),
        stats: Some(stats.clone()),
        lines: Some(vec![line(Source::Others, Some(1), i, i), line(Source::Me, None, i, i)]),
    };
    let v: Vec<Appearance> = (1..=12).map(at).collect();
    let src = profile_source(&v);
    assert_eq!(src.meetings.len(), 12);
    assert_eq!(src.last_heard_ms, 12);
    assert_eq!((src.person_lines.len(), src.other_lines.len()), (10, 10));
    assert_eq!(src.person_lines[0], "line at 1");
    let p = profile_data(9, "Ada".into(), src, vec!["todo".into()], Vec::new());
    assert_eq!((p.voiceprint_id, p.open_items.len(), p.last_heard_ms), (9, 1, 12));
}

#[test]
fn locked_databases_ask_for_a_passphrase() {
    let facts = GateFacts { has_pass: true, db_exists: true, db_encrypted: true, opens: false };
    let mut g = GateFlags { encrypted: true, encrypt_pending: false, decrypt_pending: false };
    assert_eq!(g.run(facts), (vec![GateStep::UsePass], Gate::NeedsPassphrase));
    assert_eq!(g.run(GateFacts { opens: true, ..facts }).1, Gate::Unlocked);
    assert_eq!(g.run(GateFacts { has_pass: false, ..facts }), (vec![], Gate::NeedsPassphrase));
    // Encryption that waits is applied once.
    let mut g = GateFlags { encrypted: false, encrypt_pending: true, decrypt_pending: false };
    assert_eq!(
        g.run(facts),
        (vec![GateStep::Encrypt, GateStep::UsePass, GateStep::Save], Gate::Unlocked)
    );
    assert_eq!(g, GateFlags { encrypted: true, encrypt_pending: false, decrypt_pending: false });
    // Without a passphrase it is given up.
    let mut g = GateFlags { encrypted: false, encrypt_pending: true, decrypt_pending: false };
    let none = GateFacts { has_pass: false, db_exists: true, db_encrypted: false, opens: false };
    assert_eq!(g.run(none), (vec![GateStep::Save], Gate::Unlocked));
    assert!(!g.encrypt_pending);
    let mut g = GateFlags { encrypted: true, encrypt_pending: false, decrypt_pending: true };
    assert_eq!(
        g.run(facts).0,
        [GateStep::Decrypt, GateStep::UseNone, GateStep::Forget, GateStep::Save]
    );
    assert!(!g.encrypted && !g.decrypt_pending);
    assert_eq!(try_unlock(true, true), (vec![GateStep::Remember], true));
    assert_eq!(try_unlock(true, false), (vec![], true));
    assert_eq!(try_unlock(false, true), (vec![GateStep::UseNone], false));
}

#[test]
fn jobs_are_cancelled_by_name() {
    let mut j = Jobs::new();
    let (a, ev) = j.begin("diarize:1", "diarize", "Identifying speakers");
    assert!(matches!(ev, Event::JobStarted { ref id, .. } if id == "diarize:1"));
    let (b, _) = j.begin("compress:2", "compress", "Compressing");
    assert!(j.is_running("diarize:1"));
    j.cancel("diarize:1");
    assert!(j.cancelled(a) && !j.cancelled(b));
    assert!(matches!(j.end("diarize:1"), Event::JobFinished { .. }));
    assert!(!j.is_running("diarize:1"));
    // A new job of the same name is not cancelled, and the old ticket stays so.
    let (c, _) = j.begin("diarize:1", "diarize", "Identifying speakers");
    assert!(j.cancelled(a) && !j.cancelled(c));
    j.cancel("unknown");
    assert!(!j.cancelled(c));
}

#[test]
fn job_names_tell_jobs_apart() {
    let keys = [
        JobKey::Summarize("a".into()),
        JobKey::Compress("a".into()),
        JobKey::Overview,
        JobKey::Recompress,
        JobKey::Diarize("a".into()),
        JobKey::Retranscribe("a".into()),
        JobKey::Semantic,
        JobKey::Sentiment,
        JobKey::SentimentSession("a".into()),
        JobKey::Summarize("b".into()),
    ];
    for (i, a) in keys.iter().enumerate() {
        assert_eq!(a.copy().id(), a.id());
        assert!(!a.kind().is_empty() && !a.label().is_empty());
        for b in &keys[i + 1..] {
            assert_ne!(a.id(), b.id());
        }
    }
}

#[test]
fn timelines_are_answered_or_computed() {
    let c = DbContext { kb_dir: false, learn_voices: false, running: false, tracks: 0, kept: false };
    let steps = |c: DbContext| db_steps(DbCmd::LoadTimeline("a".into()), c);
    // Without kept audio the timeline is empty, whatever else holds.
    let busy = DbContext { running: true, kept: true, ..c };
    for c in [c, busy] {
        assert!(matches!(&steps(c)[..], [DbStep::SendNoTimeline(id)] if id == "a"));
    }
    // One that is kept is reported, also while it is computed anew.
    for running in [false, true] {
        let kept = DbContext { tracks: 2, kept: true, running, ..c };
        assert!(matches!(&steps(kept)[..], [DbStep::SendTimeline(id)] if id == "a"));
    }
    // One that is being computed is reported by its job.
    assert!(steps(DbContext { tracks: 2, running: true, ..c }).is_empty());
    let begun = steps(DbContext { tracks: 1, ..c });
    assert!(matches!(
        &begun[..],
        [DbStep::BeginJob(k), DbStep::Spawn { key, work: Work::Timeline(id) }]
            if k.id() == "timeline:a" && key.id() == "timeline:a" && id == "a"
    ));
}

#[test]
fn commands_become_steps() {
    let c = DbContext { kb_dir: true, learn_voices: false, running: false, tracks: 0, kept: false };
    let steps = db_steps(DbCmd::Rename { id: "a".into(), title: "T".into() }, c);
    assert!(steps.iter().any(|s| matches!(s, DbStep::SetTitle { .. })));
    assert!(steps.iter().any(|s| matches!(s, DbStep::SendSessions)));
    assert!(steps.iter().any(|s| matches!(s, DbStep::MirrorSession { .. })));
    let none = DbContext { kb_dir: false, ..c };
    let steps = db_steps(DbCmd::Rename { id: "a".into(), title: "T".into() }, none);
    assert!(!steps.iter().any(|s| matches!(s, DbStep::MirrorSession { .. })));
    // A job that runs is not begun again; one that is begun is run.
    let diarize = DbCmd::Diarize { id: "a".into(), num_speakers: 2 };
    assert_eq!(command_job(&diarize).map(|k| k.id()).as_deref(), Some("diarize:a"));
    assert!(db_steps(diarize, c)
        .iter()
        .any(|s| matches!(s, DbStep::Spawn { work: Work::Diarize { num_speakers: 2, .. }, .. })));
    let cmd = || DbCmd::ExportClip { id: "a".into(), paths: Vec::new(), start_ms: 0, end_ms: 9 };
    let busy = DbContext { running: true, ..c };
    assert!(!db_steps(cmd(), busy).iter().any(|s| matches!(s, DbStep::BeginJob(_))));
    let steps = db_steps(cmd(), c);
    assert!(steps.iter().any(|s| matches!(s, DbStep::BeginJob(_))));
    assert!(steps.iter().any(|s| matches!(s, DbStep::Spawn { work: Work::ExportClip { .. }, .. })));
    assert!(search_steps("  ").iter().any(|s| matches!(s, DbStep::SendNoHits)));
    assert!(search_steps("a b").iter().any(|s| matches!(s, DbStep::SearchTranscripts(q) if q == "\"a\"* \"b\"*")));
}

#[test]
fn one_thing_plays_at_a_time() {
    let mut p = Player::new();
    let play = |id| PlayCmd::Play { segment_id: id, wav: "a.wav".into(), start_ms: 0, end_ms: 10 };
    let steps = p.command(play(1), 0, 0);
    assert!(matches!(steps.last(), Some(PlayStep::OpenLine { .. })));
    p.line_opened(1, LineOutcome::Queued);
    assert_eq!(p.current, Some(1));
    let steps = p.command(PlayCmd::TimelinePlay { paths: vec!["a".into()], start_ms: 500 }, 0, 0);
    assert!(steps.iter().any(|s| matches!(s, PlayStep::OpenMix { start_ms: 500, .. })));
    assert_eq!(p.current, None);
    p.mix_opened(500, 0x3f80_0000, 0, MixOutcome::Ready);
    assert!(p.busy() && p.tl.is_some());
    p.command(PlayCmd::TimelinePause, 1_000_000_000, 1_000);
    assert_eq!(p.tl.as_ref().unwrap().position_ms(0), 1_500);
    p.command(PlayCmd::Stop, 0, 0);
    assert!(!p.busy());
    let steps = p.command(PlayCmd::TimelineSeek { start_ms: 9 }, 0, 0);
    assert!(matches!(&steps[..], [PlayStep::Notice(PlayNotice::NotPlaying)]));
    let steps = p.line_opened(2, LineOutcome::NoDevice);
    assert!(steps.iter().any(|s| matches!(s, PlayStep::Notice(PlayNotice::NoDevice))));
    assert!(!PlayNotice::UnreadableLine.text().is_empty());
}

#[test]
fn the_speed_is_remembered_while_nothing_plays() {
    let mut p = Player::new();
    p.command(PlayCmd::TimelineSpeed(0x4000_0000), 0, 0);
    let steps = p.command(PlayCmd::TimelinePlay { paths: Vec::new(), start_ms: 0 }, 0, 0);
    assert!(steps.iter().any(|s| matches!(s, PlayStep::OpenMix { speed: 0x4000_0000, .. })));
}

fn session(ended_at: Option<u64>, audio: bool) -> Session {
    Session {
        id: "a".into(),
        started_at: 0,
        ended_at,
        title: None,
        audio_path: if audio { Some("/audio/a".into()) } else { None },
        model: "base".into(),
        overview_folded_ms: None,
    }
}

#[test]
fn track_files_are_recognized() {
    assert_eq!(track_index("spk-3.wav"), Some(3));
    assert_eq!(track_index("spk-3.opus"), Some(3));
    assert_eq!(track_index("spk-x.wav"), None);
    assert_eq!(track_index("me.wav"), None);
    let names: Vec<String> =
        ["spk-2.wav", "me.wav", "spk-0.opus", "spk-2.opus"].iter().map(|s| s.to_string()).collect();
    assert_eq!(speaker_tracks(&names), vec![0, 2]);
    let suffixes = track_suffixes(&names);
    assert_eq!(suffixes, ["me", "others", "spk-0", "spk-2"]);
    let paths = vec![Some("m".to_string()), None, Some("s0".to_string()), None];
    let found = resolved_tracks(&suffixes, &paths);
    assert_eq!(found.len(), 2);
    let files = session_audio_files(&found);
    assert_eq!(files.me.as_deref(), Some("m"));
    assert_eq!(files.speakers.get(&0).map(|s| s.as_str()), Some("s0"));
    assert_eq!(track_source("me"), (Source::Me, None));
    assert_eq!(track_source("spk-4"), (Source::Others, Some(4)));
    assert_eq!(stamp_speaker(line(Source::Others, None, 0, 1), Some(2)).speaker, Some(2));
    assert_eq!(merged_name("a"), "a.merged.wav");
    assert!(clip_name("a", 1_000, 2_000).starts_with('a'));
}

#[test]
fn timelines_are_cached_by_their_files() {
    let lane = || timeline_lane(&"spk-1".to_string(), 1_000, vec![1, 2], vec![true, false]);
    assert_eq!(lane().speaker, Some(1));
    let fp = fingerprint(&vec![(10, 20), (1, 2)]);
    assert_eq!(fp, 33);
    let mut c = TimelineCache::new();
    assert!(c.get("a", fp).is_none());
    c.put("a", fp, vec![lane()]);
    let kept: &Vec<TimelineLane> = c.get("a", fp).unwrap();
    assert_eq!(kept.len(), 1);
    assert!(c.get("a", fp + 1).is_none());
    assert_eq!(timeline_plan(0, false, false), TimelinePlan::Empty);
    assert_eq!(timeline_plan(1, true, false), TimelinePlan::Cached);
    assert_eq!(timeline_plan(1, false, true), TimelinePlan::Building);
    assert_eq!(timeline_plan(1, false, false), TimelinePlan::Build);
}

#[test]
fn old_recordings_are_compressed_and_verified() {
    let day = 86_400_000;
    assert!(wants_compression(&session(Some(0), true), Some(1), false, 2 * day));
    assert!(!wants_compression(&session(Some(0), true), Some(3), false, 2 * day));
    assert!(wants_compression(&session(Some(0), true), Some(3), true, 2 * day));
    assert!(!wants_compression(&session(None, true), Some(0), true, 2 * day));
    assert!(!wants_compression(&session(Some(0), false), Some(0), true, 2 * day));
    assert!(!wants_compression(&session(Some(0), true), None, false, 2 * day));
    assert_eq!(sweep_file("me.wav"), SweepFile::Compress);
    assert_eq!(sweep_file("me.opus.partial"), SweepFile::Remove);
    assert_eq!(sweep_file("me.opus"), SweepFile::Leave);
    assert!(verified_length(16_000, 16_000, 48_000));
    assert_eq!(compressed_length(16_000, 16_000), 48_000);
    assert_eq!(compressed_length(441, 44_100), 480);
    assert_eq!(compressed_length(2, 0), 96_000);
    assert!(!verified_length(1_600_000, 16_000, 0));
}

#[test]
fn clips_have_their_length() {
    assert!(matches!(Clip::new(0, 0, 10), Err(ClipError::NoTracks)));
    assert!(matches!(Clip::new(1, 10, 10), Err(ClipError::EmptyRange)));
    assert!(!ClipError::NoTracks.text().is_empty());
    let mut c = Clip::new(1, 0, 1_000).unwrap();
    let mut got = 0;
    while c.wants_more() {
        got += c.take(7_000);
    }
    assert_eq!(got as u64, c.want);
}
