use std::collections::HashMap;

use zord_gui::actions::{play_request, recording};
use zord_gui::find::{find_count, find_hits, find_step, range_ids};
use zord_gui::icons::{icon, icon_paths};
use zord_gui::labels::DateGroup;
use zord_gui::model::{
    AudioFiles, ChatScope, DbCmd, EmbedCmd, Event, Features, ModelInfo, PlayCmd, RecorderCmd,
    Segment, Session, SessionStats, Source, SpeakerStats, Status, SummCmd,
};
use zord_gui::panels::{
    ai_page, app_hint, download_urls, job_elapsed, model_roles, model_row, models_of, rail,
    remote_choices, sections, text_panel, update_notice, AiPage, AppHint, ModelRow, Section,
    UpdateAnswer,
};
use zord_gui::preferences::{
    accept_passphrase, bot_notice, days_text, export_request, invite_url, BotAnswer, PassError,
    Switch,
};
use zord_gui::settings::Settings;
use zord_gui::sidebar::bulk_delete_text;
use zord_gui::sidebar::{
    click_kind, empty_text, has_id, rename_command, row_style, sidebar_rows, Click, Splitter,
};
use zord_gui::theme::{
    accent_presets, channels, is_valid_hex_color, readable_fg, swatch_on, theme_style, Lights,
    ThemeColor,
};
use zord_gui::toolbar::{legend_class, stats_head, talk_detail};
use zord_gui::toolbar::{
    has_any_audio, hit_class, line_audio, replay_button, speakers_of, speech_pct, standout_insight,
    transcript_text,
};
use zord_gui::ui::{JobView, Outgoing, Screen, UiState};

fn settings() -> Settings {
    Settings {
        model: "base".to_string(),
        retranscribe_model: "large".to_string(),
        live_transcription: true,
        auto_transcribe: true,
        transcribe_workers: 1,
        keep_audio: false,
        input_device: None,
        capture_mode: "both".to_string(),
        capture_app_id: String::new(),
        capture_app_name: String::new(),
        capture_mode_before_app: "both".to_string(),
        mic_level_mode: "off".to_string(),
        others_level_mode: "off".to_string(),
        mic_gain_db: 0,
        others_gain_db: 0,
        auto_delete_days: None,
        compress_after_days: None,
        compress_quality: "standard".to_string(),
        kb_export_dir: String::new(),
        llm_backend: "local".to_string(),
        llm_base_url: String::new(),
        llm_api_key: String::new(),
        llm_model: String::new(),
        llm_timeout_secs: 60,
        summary_model: String::new(),
        summary_preset: "default".to_string(),
        summary_prompt: None,
        auto_title: true,
        compress_ctx: 16384,
        overview_auto: false,
        overview_ctx: 16384,
        diarize_auto: false,
        diarize_live: false,
        diarize_num_speakers: 0,
        diarize_threshold: 0,
        diarize_segmentation_model: String::new(),
        diarize_embedding_model: String::new(),
        voiceprints_enabled: false,
        bookmark_phrases: Vec::new(),
        bookmark_back_offset_secs: 0,
        discord_bot_token: String::new(),
        discord_user_id: String::new(),
        discord_announce: false,
        discord_record_button: true,
        encrypted: false,
        encrypt_pending: false,
        decrypt_pending: false,
        theme_accent: String::new(),
        theme_me: String::new(),
        theme_others: String::new(),
        badge_tint: true,
        check_updates: true,
        setup_complete: true,
        sidebar_width: 280,
    }
}

fn features() -> Features {
    Features {
        llm_remote: false,
        llm_local: false,
        diarization: false,
        voiceprints: false,
        semantic: false,
        sentiment: false,
        discord: false,
        self_update: false,
        parakeet: false,
        encryption: false,
    }
}

fn window() -> UiState {
    UiState::new(settings())
}

fn session(id: &str, started_at: u64, title: Option<&str>) -> Session {
    Session {
        id: id.to_string(),
        started_at,
        ended_at: Some(started_at + 60_000),
        title: title.map(|t| t.to_string()),
        audio_path: None,
        model: "base".to_string(),
        overview_folded_ms: None,
    }
}

fn seg(id: Option<i64>, text: &str) -> Segment {
    Segment {
        id,
        source: Source::Me,
        t_start_ms: 0,
        t_end_ms: 1000,
        text: text.into(),
        speaker: None,
    }
}

fn others(id: i64, speaker: Option<i32>, start: u64, text: &str) -> Segment {
    Segment {
        id: Some(id),
        source: Source::Others,
        t_start_ms: start,
        t_end_ms: start + 1000,
        text: text.into(),
        speaker,
    }
}

#[test]
fn range_ids_forward() {
    let items: Vec<String> = ["a", "b", "c", "d"].iter().map(|s| s.to_string()).collect();
    let got = range_ids(&items, "a", "c");
    assert_eq!(got, vec!["a", "b", "c"]);
}

#[test]
fn range_ids_reversed() {
    let items: Vec<String> = ["a", "b", "c", "d"].iter().map(|s| s.to_string()).collect();
    let got = range_ids(&items, "c", "a");
    assert_eq!(got, vec!["a", "b", "c"]);
}

#[test]
fn range_ids_same() {
    let items: Vec<String> = ["a", "b", "c"].iter().map(|s| s.to_string()).collect();
    let got = range_ids(&items, "b", "b");
    assert_eq!(got, vec!["b"]);
}

#[test]
fn range_ids_anchor_missing() {
    let items: Vec<String> = ["a", "b", "c"].iter().map(|s| s.to_string()).collect();
    let got = range_ids(&items, "z", "b");
    assert!(got.is_empty());
}

#[test]
fn empty_query_returns_empty() {
    let segs = vec![seg(Some(1), "hello world")];
    assert!(find_hits(&segs, "").is_empty());
}

#[test]
fn case_insensitive_match() {
    let segs = vec![seg(Some(1), "Hello World"), seg(Some(2), "foo bar")];
    assert_eq!(find_hits(&segs, "hello"), vec![1]);
    assert_eq!(find_hits(&segs, "WORLD"), vec![1]);
    assert_eq!(find_hits(&segs, "FOO"), vec![2]);
}

#[test]
fn no_match_returns_empty() {
    let segs = vec![seg(Some(1), "hello"), seg(Some(2), "world")];
    assert!(find_hits(&segs, "zzz").is_empty());
}

#[test]
fn segments_without_id_are_skipped() {
    let segs = vec![seg(None, "hello"), seg(Some(2), "hello")];
    assert_eq!(find_hits(&segs, "hello"), vec![2]);
}

#[test]
fn order_follows_transcript_order() {
    let segs = vec![
        seg(Some(10), "apple"),
        seg(Some(5), "pineapple"),
        seg(Some(7), "mango"),
    ];
    // "apple" matches id 10 and 5 — order follows slice order
    let hits = find_hits(&segs, "apple");
    assert_eq!(hits, vec![10, 5]);
}

#[test]
fn multiple_hits_across_segments() {
    let segs = vec![
        seg(Some(1), "the quick brown fox"),
        seg(Some(2), "jumped over the lazy dog"),
        seg(Some(3), "the end"),
    ];
    let hits = find_hits(&segs, "the");
    assert_eq!(hits, vec![1, 2, 3]);
}

// The relative luminance of a color decides whether it is light.
fn is_light(hex: &str) -> bool {
    let (r, g, b) = match channels(hex) {
        Some(c) => c,
        None => return false,
    };
    let lin = |c: u8| {
        let c = c as f32 / 255.0;
        if c <= 0.04045 {
            c / 12.92
        } else {
            ((c + 0.055) / 1.055).powf(2.4)
        }
    };
    0.2126 * lin(r) + 0.7152 * lin(g) + 0.0722 * lin(b) > 0.35
}

fn fg(hex: &str) -> &'static str {
    readable_fg(hex, is_light(hex))
}

fn style(s: &Settings) -> String {
    theme_style(
        s,
        Lights {
            accent: is_light(&s.theme_accent),
            me: is_light(&s.theme_me),
            others: is_light(&s.theme_others),
        },
    )
}

#[test]
fn readable_fg_picks_contrast() {
    assert_eq!(fg("#ffffff"), "#06222f"); // light bg → dark text
    assert_eq!(fg("#4cc2ff"), "#06222f"); // cyan is light
    assert_eq!(fg("#1a1a2e"), "#ffffff"); // dark bg → white text
    assert_eq!(fg("#5865f2"), "#ffffff"); // blurple is dark enough
    assert_eq!(fg("not-a-color"), "#06222f"); // garbage → default
}

#[test]
fn theme_style_only_emits_valid_overrides() {
    let mut s = settings();
    assert_eq!(style(&s), "");
    s.theme_accent = "#5865f2".into();
    let css = style(&s);
    assert!(css.contains("--accent: #5865f2;"));
    assert!(css.contains("--accent-fg: #ffffff;"));
    s.theme_me = "junk".into(); // invalid → ignored
    assert!(!style(&s).contains("--me:"));
    s.theme_others = "#3ecf8e".into();
    assert!(style(&s).contains("--others: #3ecf8e;"));
}

#[test]
fn theme_style_is_one_line_without_a_trailing_space() {
    let mut s = settings();
    s.theme_accent = "#5865f2".into();
    s.theme_others = "#3ecf8e".into();
    assert_eq!(
        style(&s),
        "--accent: #5865f2; --accent-fg: #ffffff; --others: #3ecf8e; --others-fg: #06222f;"
    );
}

#[test]
fn colors_have_six_hexadecimal_digits() {
    assert!(is_valid_hex_color("#00ffAA"));
    assert_eq!(channels("#0180ff"), Some((1, 128, 255)));
    for bad in ["", "#", "#fff", "00ffaa", "#00ffa", "#00ffaag", "#00ffgg", "#é0ffaa"] {
        assert!(!is_valid_hex_color(bad), "{bad}");
    }
}

#[test]
fn color_fields_take_colors_or_nothing() {
    let mut s = settings();
    assert!(s.set_color(ThemeColor::Me, "  #ABCDEF "));
    assert_eq!(s.theme_me, "#ABCDEF");
    assert!(!s.set_color(ThemeColor::Me, "red;}"));
    assert_eq!(s.theme_me, "#ABCDEF");
    assert!(s.set_color(ThemeColor::Me, "   "));
    assert_eq!(s.theme_me, "");
    s.theme_accent = "#123456".into();
    s.theme_others = "#123456".into();
    s.reset_colors();
    assert_eq!((s.theme_accent.as_str(), s.theme_others.as_str()), ("", ""));
}

#[test]
fn swatches_mark_the_color_in_effect() {
    assert!(swatch_on("", "#4cc2ff", "#4CC2FF"));
    assert!(!swatch_on("#5865f2", "#4cc2ff", "#4cc2ff"));
    assert!(swatch_on("#5865F2", "#4cc2ff", "#5865f2"));
    assert!(!swatch_on("#5865f2x", "#4cc2ff", "#5865f2"));
    assert_eq!(accent_presets().len(), 6);
    for (_, hex) in accent_presets() {
        assert!(is_valid_hex_color(hex));
    }
}

#[test]
fn icons_have_markup() {
    assert_eq!(icon_paths("play"), "<path d='M7 5v14l11-7z'/>");
    assert_eq!(icon_paths("export"), icon_paths("download"));
    assert_eq!(icon_paths("nothing like this"), "<circle cx='12' cy='12' r='8'/>");
    let svg = icon("play");
    assert!(svg.starts_with("<svg viewBox='0 0 24 24'"));
    assert!(svg.ends_with("<path d='M7 5v14l11-7z'/></svg>"));
}

#[test]
fn a_finished_recording_is_followed_only_from_the_live_view() {
    let mut w = window();
    w.apply(Event::Status(Status::Recording), 0);
    w.apply(Event::SessionStarted("sess-1".into()), 0);
    let out = w.apply(Event::Status(Status::Idle), 0);
    assert!(matches!(&w.screen, Screen::Session(id) if id == "sess-1"));
    assert!(matches!(&out[..], [Outgoing::Db(DbCmd::Load(id))] if id == "sess-1"));
    assert!(w.rec.live_session_id.is_none());

    let mut w = window();
    w.apply(Event::Status(Status::Recording), 0);
    w.apply(Event::SessionStarted("sess-1".into()), 0);
    w.screen = Screen::Session("other".into());
    let out = w.apply(Event::Status(Status::Idle), 0);
    assert!(matches!(&w.screen, Screen::Session(id) if id == "other"));
    assert!(out.is_empty());
}

#[test]
fn transcripts_of_other_sessions_are_dropped() {
    let mut w = window();
    w.screen = Screen::Session("a".into());
    w.apply(Event::Transcript { id: "b".into(), segments: vec![seg(Some(1), "x")] }, 0);
    assert!(w.pane.segments.is_empty());
    w.apply(Event::Transcript { id: "a".into(), segments: vec![seg(Some(1), "x")] }, 0);
    assert_eq!(w.pane.segments.len(), 1);
}

#[test]
fn live_lines_survive_other_events() {
    let mut w = window();
    w.apply(Event::Segment(seg(None, "one")), 0);
    w.apply(Event::Summary(Some("s".into())), 0);
    w.screen = Screen::Search;
    w.apply(Event::Segment(seg(None, "two")), 0);
    let texts: Vec<&str> = w.rec.live_segments.iter().map(|s| s.text.as_str()).collect();
    assert_eq!(texts, ["one", "two"]);
}

#[test]
fn only_the_end_of_a_run_clears_the_speaker_mark() {
    let mut w = window();
    w.screen = Screen::Session("a".into());
    w.pane.diarizing = true;
    w.apply(Event::Speakers(HashMap::new()), 0);
    assert!(w.pane.diarizing);
    w.apply(Event::Diarized { id: "b".into(), speakers: HashMap::new() }, 0);
    assert!(!w.pane.diarizing);
}

#[test]
fn the_board_lists_a_job_once() {
    let mut w = window();
    let start = || Event::JobStarted {
        id: "summarize:a".into(),
        kind: "summarize".into(),
        label: "Summarizing".into(),
    };
    w.apply(start(), 5);
    w.apply(start(), 9);
    assert_eq!(w.board.jobs.len(), 1);
    w.apply(Event::JobFinished { id: "summarize:a".into() }, 10);
    assert!(w.board.jobs.is_empty());
}

#[test]
fn selections_follow_the_list() {
    let mut w = window();
    w.shelf.selected_sessions = vec!["a".into(), "gone".into()];
    w.apply(Event::Sessions(vec![session("a", 0, None)]), 0);
    assert_eq!(w.shelf.selected_sessions, vec!["a"]);
}

#[test]
fn a_burst_keeps_the_newest_levels() {
    let mut w = window();
    w.apply_burst(vec![
        (Event::Level { source: Source::Me, level: 1 }, 0),
        (Event::Notice("n".into()), 0),
        (Event::Level { source: Source::Me, level: 2 }, 0),
        (Event::Level { source: Source::Others, level: 7 }, 0),
    ]);
    assert_eq!((w.rec.me_level, w.rec.others_level), (2, 7));
    assert_eq!(w.notice.as_deref(), Some("n"));
}

#[test]
fn the_external_server_offers_a_model_when_none_is_chosen() {
    let mut w = window();
    w.apply(Event::RemoteModels { models: vec!["m1".into(), "m2".into()], error: None }, 0);
    assert_eq!(w.setup.settings.llm_model, "m1");
    assert_eq!(w.notice.as_deref(), Some("Connected — 2 model(s) available."));
    w.apply(Event::RemoteModels { models: Vec::new(), error: Some("refused".into()) }, 0);
    assert_eq!(w.setup.settings.llm_model, "m1");
    assert_eq!(w.notice.as_deref(), Some("External LLM: refused"));
}

#[test]
fn answers_stream_into_one_turn() {
    let mut w = window();
    w.screen = Screen::Session("a".into());
    w.talk.chat_scope = Some(ChatScope::Meeting("a".into()));
    w.talk.chat_input = " What now? ".into();
    let out = w.submit_chat(ChatScope::Meeting("a".into()));
    assert!(matches!(&out[..], [Outgoing::Summ(SummCmd::Chat { .. })]));
    assert!(w.talk.chat_busy);
    for d in ["Do ", "this."] {
        w.apply(Event::ChatDelta { scope: ChatScope::Meeting("a".into()), delta: d.into() }, 0);
    }
    assert_eq!(w.talk.chat.last(), Some(&(false, "Do this.".to_string())));
    let turns = w.talk.chat.len();
    w.apply(
        Event::ChatReply { scope: ChatScope::Meeting("a".into()), reply: "Do this now.".into() },
        0,
    );
    assert_eq!(w.talk.chat.len(), turns);
    assert_eq!(w.talk.chat.last(), Some(&(false, "Do this now.".to_string())));
    assert!(!w.talk.chat_busy);
    // An empty question is not asked.
    w.talk.chat_input = "   ".into();
    assert!(w.submit_chat(ChatScope::Meeting("a".into())).is_empty());
}

#[test]
fn the_record_button_starts_and_stops() {
    let mut w = window();
    let out = w.record(false, "base".into(), "/audio".into());
    assert!(out.iter().any(|o| matches!(
        o,
        Outgoing::Rec(RecorderCmd::Start { record_mic: true, record_system: true, integration: false, .. })
    )));
    w.apply(Event::Status(Status::Recording), 0);
    assert!(recording(&w.rec.status));
    let out = w.record(false, "base".into(), "/audio".into());
    assert!(out.iter().any(|o| matches!(o, Outgoing::Rec(RecorderCmd::Stop))));
}

#[test]
fn mute_buttons_send_their_state() {
    let mut w = window();
    let out = w.toggle_mic();
    assert!(w.rec.mic_muted);
    assert!(matches!(&out[..], [Outgoing::Rec(RecorderCmd::SetMicMuted(true))]));
    let out = w.toggle_system();
    assert!(w.rec.sys_muted);
    assert!(matches!(&out[..], [Outgoing::Rec(RecorderCmd::SetSystemMuted(true))]));
}

#[test]
fn queries_go_where_the_mode_says() {
    let mut w = window();
    let out = w.run_query("budget".into(), features());
    assert!(matches!(&out[..], [Outgoing::Db(DbCmd::Search(q))] if q == "budget"));
    w.seek.semantic_mode = true;
    let mut f = features();
    f.semantic = true;
    let out = w.run_query("budget".into(), f);
    assert!(matches!(&out[..], [Outgoing::Embed(EmbedCmd::Query(q))] if q == "budget"));
}

#[test]
fn find_steps_wrap_around() {
    assert_eq!(find_step(2, 3, true), Some(0));
    assert_eq!(find_step(0, 3, false), Some(2));
    assert_eq!(find_step(0, 0, true), None);
    for cur in 0..3 {
        let next = find_step(cur, 3, true).unwrap();
        assert_eq!(find_step(next, 3, false), Some(cur));
    }
    assert_eq!(find_count(1, 3), "2 of 3");
}

#[test]
fn replay_requests_become_commands() {
    assert!(matches!(play_request(None), PlayCmd::Stop));
    assert!(matches!(
        play_request(Some(("a.wav".into(), 7, 10, 20))),
        PlayCmd::Play { segment_id: 7, start_ms: 10, end_ms: 20, .. }
    ));
}

#[test]
fn the_live_recording_has_no_row() {
    let now = 10 * 86_400_000;
    let list = vec![
        session("live", now, Some("Now")),
        session("today", now, Some("Standup")),
        session("old", 0, Some("Kickoff")),
    ];
    let rows = sidebar_rows(&list, &Some("live".to_string()), "", now);
    let got: Vec<(Option<DateGroup>, &str)> =
        rows.iter().map(|(g, s)| (*g, s.id.as_str())).collect();
    assert_eq!(
        got,
        [(Some(DateGroup::Today), "today"), (Some(DateGroup::ThisMonth), "old")]
    );
    let rows = sidebar_rows(&list, &None, "STAND", now);
    assert_eq!(rows.len(), 1);
    assert_eq!(empty_text(&Vec::new()), empty_text(&Vec::new()));
    assert_ne!(empty_text(&Vec::new()), empty_text(&list));
}

#[test]
fn clicks_select_toggle_and_extend() {
    let ordered: Vec<String> = ["a", "b", "c"].iter().map(|s| s.to_string()).collect();
    assert_eq!(click_kind(false, false, false), Click::Plain);
    assert_eq!(click_kind(true, false, false), Click::Toggle);
    assert_eq!(click_kind(false, true, false), Click::Toggle);
    assert_eq!(click_kind(false, false, true), Click::Extend);
    let mut w = window();
    w.click_row("a".into(), Click::Toggle, &ordered);
    assert_eq!(w.shelf.selected_sessions, vec!["a"]);
    w.click_row("c".into(), Click::Extend, &ordered);
    assert_eq!(w.shelf.selected_sessions.len(), 3);
    for id in &ordered {
        assert!(has_id(&w.shelf.selected_sessions, id));
    }
    // Toggling twice changes nothing.
    w.click_row("b".into(), Click::Toggle, &ordered);
    assert!(!has_id(&w.shelf.selected_sessions, &"b".to_string()));
    w.click_row("b".into(), Click::Toggle, &ordered);
    assert!(has_id(&w.shelf.selected_sessions, &"b".to_string()));
    w.clear_selection();
    assert!(w.shelf.selected_sessions.is_empty());
}

#[test]
fn blank_titles_are_not_saved() {
    let id = "a".to_string();
    assert!(matches!(
        rename_command(&id, "  New  "),
        Some(DbCmd::Rename { title, .. }) if title.trim() == "New"
    ));
    assert!(rename_command(&id, "   ").is_none());
}

#[test]
fn rows_show_their_state() {
    assert_ne!(row_style(true, false), row_style(false, false));
    assert_ne!(row_style(false, true), row_style(false, false));
}

#[test]
fn the_splitter_stays_within_its_bounds() {
    let mut s = Splitter::new(9_999);
    assert_eq!(s.width, 480);
    s.moved(300);
    assert_eq!(s.width, 480);
    s.press();
    s.moved(356);
    assert_eq!(s.width, 300);
    s.moved(10);
    assert_eq!(s.width, 160);
    assert_eq!(s.release(), Some(160));
    assert_eq!(s.release(), None);
}

#[test]
fn leaving_the_app_capture_restores_the_mode() {
    let apps = vec![("zoom".to_string(), "Zoom".to_string())];
    let mut s = settings();
    s.capture_mode = "system".into();
    s.pick_capture_app("zoom".into(), &apps);
    assert_eq!((s.capture_mode.as_str(), s.capture_app_name.as_str()), ("app", "Zoom"));
    s.pick_capture_app(String::new(), &apps);
    assert_eq!(s.capture_mode, "system");
}

#[test]
fn settings_fields_clamp_and_parse() {
    let mut s = settings();
    s.set_workers("9");
    assert_eq!(s.transcribe_workers, 4);
    s.set_workers("0");
    assert_eq!(s.transcribe_workers, 1);
    s.set_workers("many");
    assert_eq!(s.transcribe_workers, 1);
    s.set_workers("3");
    assert_eq!(s.transcribe_workers, 3);
    assert!(s.set_compress_ctx(" 100 "));
    assert_eq!(s.compress_ctx, 8192);
    assert!(s.set_compress_ctx("999999"));
    assert_eq!(s.compress_ctx, 131072);
    assert!(!s.set_compress_ctx("64k"));
    assert_eq!(s.compress_ctx, 131072);
    s.set_auto_delete("30");
    assert_eq!(s.auto_delete_days, Some(30));
    s.set_auto_delete("0");
    assert_eq!(s.auto_delete_days, None);
    s.set_compress_after("0");
    assert_eq!(s.compress_after_days, Some(0));
    s.set_compress_after("");
    assert_eq!(s.compress_after_days, None);
    assert_eq!(days_text(Some(7)), "7");
    assert_eq!(days_text(None), "");
}

#[test]
fn settings_choices_are_kept() {
    let mut s = settings();
    s.set_input_device("USB mic".into());
    assert_eq!(s.input_device.as_deref(), Some("USB mic"));
    s.set_input_device("__default__".into());
    assert_eq!(s.input_device, None);
    assert!(s.set_capture_mode("app".into()));
    assert_eq!(s.capture_mode_before_app, "both");
    assert!(!s.set_capture_mode("mic".into()));
    let apps = vec![("a".to_string(), "App".to_string())];
    s.choose_app("a".into(), &apps);
    assert_eq!(s.capture_app_name, "App");
    s.choose_app("b".into(), &apps);
    assert_eq!(s.capture_app_name, "");
    s.set_bot_token("  tok ");
    s.set_user_id(" 42 ");
    s.set_kb_dir(" /notes ");
    assert_eq!(
        (s.discord_bot_token.as_str(), s.discord_user_id.as_str(), s.kb_export_dir.as_str()),
        ("tok", "42", "/notes")
    );
    s.set_prompt(Some("mine".into()));
    s.choose_preset("short".into());
    assert_eq!((s.summary_preset.as_str(), s.summary_prompt.is_none()), ("short", true));
    s.flip(Switch::KeepAudio);
    s.flip(Switch::Announce);
    assert!(s.keep_audio && s.discord_announce);
    s.flip(Switch::KeepAudio);
    assert!(!s.keep_audio);
    s.enable_encryption();
    s.disable_encryption();
    assert!(s.encrypt_pending && s.decrypt_pending);
}

#[test]
fn passphrases_are_typed_twice() {
    assert_eq!(accept_passphrase("", ""), Err(PassError::Empty));
    assert_eq!(accept_passphrase("a", "b"), Err(PassError::Different));
    assert_eq!(accept_passphrase("a", "a"), Ok(()));
    assert_eq!(PassError::Empty.text(), "Passphrase must not be empty.");
    assert_eq!(PassError::Different.text(), "Passphrases do not match.");
}

#[test]
fn the_bot_is_invited_with_few_rights() {
    assert_eq!(
        invite_url("123"),
        "https://discord.com/oauth2/authorize?client_id=123&scope=bot&permissions=1051648"
    );
    assert_eq!(bot_notice(&BotAnswer::NoToken), "Paste a bot token first.");
    assert_eq!(
        bot_notice(&BotAnswer::Valid { name: "Zed".into() }),
        "Connected — bot \"Zed\" is valid ✓"
    );
    assert_eq!(
        bot_notice(&BotAnswer::Rejected { why: "401".into() }),
        "Discord rejected the token: 401"
    );
    assert_eq!(
        bot_notice(&BotAnswer::InviteFailed { url: "u".into() }),
        "Couldn't open a browser — visit: u"
    );
    assert_eq!(
        bot_notice(&BotAnswer::NoApplication { why: "x".into() }),
        "Couldn't read the bot's application id: x"
    );
    assert!(bot_notice(&BotAnswer::InviteOpened).starts_with("Opened the invite page"));
}

#[test]
fn exports_need_a_folder() {
    let mut s = settings();
    s.kb_export_dir = "  ".into();
    assert_eq!(export_request(&s), (false, "Set a knowledge-base folder path first."));
    s.kb_export_dir = "/notes".into();
    assert!(export_request(&s).0);
}

fn model(name: &str, kind: &str, downloaded: bool) -> ModelInfo {
    ModelInfo {
        name: name.into(),
        size: "1 GB".into(),
        description: "d".into(),
        downloaded,
        kind: kind.into(),
        urls: vec![format!("https://x/{name}")],
    }
}

#[test]
fn model_rows_offer_what_is_possible() {
    let m = model("base", "transcription", false);
    assert_eq!(model_row(&m, false, &None), ModelRow::Absent);
    assert_eq!(model_row(&m, false, &Some(("base".into(), 40))), ModelRow::Fetching(40));
    assert_eq!(model_row(&m, false, &Some(("large".into(), 40))), ModelRow::Absent);
    let m = model("base", "transcription", true);
    assert_eq!(model_row(&m, true, &None), ModelRow::Present { in_use: true });
    assert_eq!(model_roles(&settings(), "base"), (true, false));
    assert_eq!(model_roles(&settings(), "large"), (false, true));
    let all = vec![model("s", "summary", true), m.clone(), model("t", "summary", false)];
    let names: Vec<&str> = models_of(&all, "summary").iter().map(|m| m.name.as_str()).collect();
    assert_eq!(names, ["s", "t"]);
    assert_eq!(download_urls(&all, "t"), vec!["https://x/t"]);
    assert!(download_urls(&all, "unknown").is_empty());
}

#[test]
fn the_ai_page_shows_the_backend() {
    let mut s = settings();
    let mut f = features();
    assert_eq!(ai_page(&s, f), AiPage::Unavailable);
    f.llm_remote = true;
    assert_eq!(ai_page(&s, f), AiPage::External { choice: false });
    f.llm_local = true;
    assert_eq!(ai_page(&s, f), AiPage::Local { choice: true });
    s.llm_backend = "external".into();
    assert_eq!(ai_page(&s, f), AiPage::External { choice: true });
}

#[test]
fn the_saved_model_stays_visible() {
    let listed = vec!["a".to_string(), "b".to_string()];
    let c = remote_choices("b", &listed);
    assert_eq!((c.show_saved, c.placeholder, c.selected), (false, false, vec![false, true]));
    let c = remote_choices("z", &listed);
    assert!(c.show_saved);
    let c = remote_choices(" ", &Vec::new());
    assert!(c.placeholder && !c.show_saved);
}

#[test]
fn the_picked_app_is_shown_even_when_it_is_closed() {
    let apps = vec![("a".to_string(), "A".to_string())];
    assert_eq!(app_hint("", &apps), AppHint::Choose);
    assert_eq!(app_hint("a", &apps), AppHint::Listed);
    assert_eq!(app_hint("b", &apps), AppHint::NotRunning);
}

#[test]
fn pages_have_their_sections() {
    assert_eq!(
        sections("recording"),
        vec![Section::AudioInput, Section::Levels, Section::Retention]
    );
    assert_eq!(sections("ai"), vec![Section::Ai]);
    assert!(sections("nowhere").is_empty());
}

#[test]
fn update_notices_say_what_happened() {
    assert_eq!(
        update_notice(&UpdateAnswer::Found { version: "2.0".into() }),
        "Update available: v2.0"
    );
    assert_eq!(
        update_notice(&UpdateAnswer::UpToDate { version: "1.0".into() }),
        "You're up to date (v1.0)."
    );
    assert_eq!(update_notice(&UpdateAnswer::CheckError { why: "offline".into() }), "offline");
    assert_eq!(
        update_notice(&UpdateAnswer::InstallError { why: "full".into() }),
        "update failed: full"
    );
}

#[test]
fn the_rail_marks_the_screen() {
    let mut f = features();
    let r = rail(&Screen::Speakers, &Vec::new(), f);
    assert!(!r.speakers && !r.speakers_active && !r.jobs);
    f.voiceprints = true;
    let job = JobView { id: "j".into(), kind: "k".into(), label: "l".into(), started_at: 1_000 };
    let r = rail(&Screen::Speakers, &vec![job.clone()], f);
    assert!(r.speakers && r.speakers_active && r.jobs && !r.overview_active);
    assert_eq!(job_elapsed(&job, 6_500), 5);
    assert_eq!(job_elapsed(&job, 0), 0);
}

#[test]
fn text_panels_can_be_deleted_on_saved_sessions() {
    assert_eq!(text_panel(&Screen::Session("a".into()), true), Some(Some("a".to_string())));
    assert_eq!(text_panel(&Screen::Live, true), Some(None));
    assert_eq!(text_panel(&Screen::Search, true), None);
    assert_eq!(text_panel(&Screen::Live, false), None);
}

#[test]
fn lines_are_replayed_from_their_own_track() {
    let mut files = AudioFiles { me: None, others: Some("o.wav".into()), speakers: HashMap::new() };
    let line = others(1, Some(2), 0, "x");
    assert_eq!(line_audio(&line, &files).as_deref(), Some("o.wav"));
    files.speakers.insert(2, "spk-2.wav".into());
    assert_eq!(line_audio(&line, &files).as_deref(), Some("spk-2.wav"));
    assert!(line_audio(&seg(Some(1), "x"), &files).is_none());
    assert!(replay_button(&seg(Some(1), "x"), &files, None).is_none());
    assert!(replay_button(&line, &files, None).is_some());
    assert!(has_any_audio(&files));
    assert!(!has_any_audio(&AudioFiles::default()));
}

#[test]
fn speakers_are_listed_once() {
    let segs = vec![others(1, Some(3), 0, "a"), others(2, Some(1), 0, "b"), others(3, Some(3), 0, "c")];
    assert_eq!(speakers_of(&segs), vec![1, 3]);
    let mut names = HashMap::new();
    names.insert(1, "Ada".to_string());
    let text = transcript_text(&segs, &names);
    assert!(text.contains("Ada") && text.contains("Speaker 4"), "{text}");
    assert_ne!(hit_class(Some(1), Some(1), &vec![1]), hit_class(Some(1), None, &vec![1]));
}

#[test]
fn insights_name_a_dominant_speaker() {
    let row = |key: &str, pct: u32| SpeakerStats {
        key: key.into(),
        talk_ms: 0,
        talk_share: 0,
        share_pct: pct,
        dominant: pct > 60,
        wpm: 0,
        longest_monologue_ms: 0,
        interruptions_made: 0,
        questions: 0,
    };
    let stats = SessionStats {
        meeting_ms: 1000,
        speech_ms: 500,
        silence_pct: 50,
        quiet: true,
        speakers: vec![row("spk-0", 75)],
    };
    let mut names = HashMap::new();
    names.insert(0, "Ada".to_string());
    let text = standout_insight(&stats, &names);
    assert!(text.contains("Ada") && text.contains("75"), "{text}");
    assert_eq!(speech_pct(&stats), 50);
}

#[test]
fn toolbar_actions_mark_themselves_busy() {
    let mut w = window();
    w.screen = Screen::Session("a".into());
    w.pane.segments = vec![seg(Some(1), "x")];
    assert!(!w.toolbar().busy);
    let out = w.summarize("a".into());
    assert!(matches!(&out[..], [Outgoing::Summ(SummCmd::Summarize(id))] if id == "a"));
    assert!(w.pane.summarizing && w.toolbar().busy);
    let out = w.compress("a".into());
    assert!(matches!(&out[..], [Outgoing::Summ(SummCmd::Compress(id))] if id == "a"));
    let out = w.fold_into_overview("a".into());
    assert!(matches!(&out[..], [Outgoing::Summ(SummCmd::UpdateOverviewDoc { session: Some(_) })]));
}

#[test]
fn identifying_speakers_pins_the_count() {
    let mut w = window();
    w.screen = Screen::Session("a".into());
    w.pane.diar_speakers = " 3 ".into();
    let out = w.identify_speakers("a".into());
    assert!(out
        .iter()
        .any(|o| matches!(o, Outgoing::Db(DbCmd::Diarize { num_speakers: 3, .. }))));
    assert!(w.pane.diarizing);
}

#[test]
fn sessions_open_fresh() {
    let mut w = window();
    w.line.timeline_open = true;
    w.pane.summary = Some("old".into());
    let out = w.open_session("a".into());
    assert!(matches!(&w.screen, Screen::Session(id) if id == "a"));
    assert!(out.iter().any(|o| matches!(o, Outgoing::Db(DbCmd::Load(id)) if id == "a")));
    assert!(!w.line.timeline_open);
    w.show_live();
    assert!(matches!(w.screen, Screen::Live));
}

#[test]
fn notices_expire_only_if_they_still_stand() {
    let mut w = window();
    w.notice = Some("newer".into());
    w.expire_notice("older");
    assert_eq!(w.notice.as_deref(), Some("newer"));
    w.expire_notice("newer");
    assert_eq!(w.notice, None);
}

#[test]
fn the_card_is_worded() {
    let speaker = SpeakerStats {
        key: "me".to_string(),
        talk_ms: 125_900,
        talk_share: 0.5f32.to_bits(),
        share_pct: 50,
        dominant: false,
        wpm: 131,
        longest_monologue_ms: 61_000,
        interruptions_made: 2,
        questions: 4,
    };
    assert_eq!(
        talk_detail(&speaker),
        "50% · 2:05 · 131 wpm · 4 Q · longest 1:01 · 2 interruptions"
    );
    let stats = SessionStats {
        meeting_ms: 600_000,
        speech_ms: 450_000,
        silence_pct: 25,
        quiet: false,
        speakers: vec![speaker],
    };
    assert_eq!(stats_head(&stats), "10:00 · 75% speech");
    assert_eq!(legend_class(3, Some(3)), "speaker-name spk-me");
    assert_eq!(legend_class(3, Some(2)), "speaker-name spk-3");
    assert_eq!(legend_class(0, None), "speaker-name spk-0");
}

#[test]
fn bulk_deletion_is_asked_for() {
    let (question, note) = bulk_delete_text(1);
    assert_eq!(question, "Delete 1 session?");
    assert_eq!(note, "Delete 1 session and their audio — cannot be undone.");
    assert_eq!(bulk_delete_text(2).0, "Delete 2 sessions?");
}
