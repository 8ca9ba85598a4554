use std::collections::HashMap;

use zord_gui::dates::{fmt_date, fmt_date_ms, iso_date_or, session_meta};
use zord_gui::diagnostics::{
    bundle_name, copied_text, features_text, model_names, recent_log, redact,
    redacted_settings_json, redacted_value_json, split_lines, system_text, SystemFacts,
};
use zord_gui::kb::{kb_base_name, kb_sanitize_filename};
use zord_gui::kb_note::{kb_render_on, mirror_needed};
use zord_gui::labels::{
    capture_sources, date_group, fmt_dur, fmt_ms, fmt_ts, job_detail, job_icon, line_class,
    line_class_for, quick_speaker_label, relative_time, session_meta_on, session_secs,
    session_title, short_id, source_class, source_label, speaker_key, speaker_label, stats_class,
    stats_label, status_label, DateGroup,
};
use zord_gui::llm::{
    BackendPlan, ChatLlmKey, ChatRole, Generated, LocalModel, MeetingContext, WritingNotice,
    after_generation, backend_plan, chat_failure, chat_llm_key, chat_system, chat_turns,
    compression_text, llm_backend_configured, local_model, meeting_chat_context,
    missing_model_text, needs_rebuild, overview_grounds_chat, recompress_order,
    recompress_progress, transcript_fits, use_external, wants_title,
};
use zord_gui::model::{Features, Segment, Session, Source, Status};
use zord_gui::notices::{recompressed_text, selection_text, Failure, Report};
use zord_gui::number::{read_i32, read_u32, read_u64, write_i64, write_two, write_u64};
use zord_gui::order::{first_by, order_by};
use zord_gui::overview::{
    FoldMove, FoldRun, MetaWrite, can_fold, fold_input, folded_text, is_destructive,
    overview_label_on, render_labeled_transcript, revert_overview_doc, skipped_text, with_notes,
};
use zord_gui::pattern::{
    after_prefix, before_suffix, contains, ends_with, join, replace_char, split_words, starts_with,
};
use zord_gui::search::{group_hits, sanitize_fts};
use zord_gui::semantic::{
    SearchBody, count_text, embed_files, group_head, group_meta, index_rows, is_semantic,
    resolved_hits, search_body, semantic_hits, semantic_model_present,
};
use zord_gui::settings::Settings;
use zord_gui::text::{blank, control, inked, same, space, trim};

fn settings() -> Settings {
    Settings {
        model: "base".to_string(),
        retranscribe_model: "large".to_string(),
        live_transcription: true,
        auto_transcribe: true,
        transcribe_workers: 1,
        keep_audio: false,
        input_device: None,
        capture_mode: "both".to_string(),
        capture_app_id: String::new(),
        capture_app_name: String::new(),
        capture_mode_before_app: "both".to_string(),
        mic_level_mode: "off".to_string(),
        others_level_mode: "off".to_string(),
        mic_gain_db: 0,
        others_gain_db: 0,
        auto_delete_days: None,
        compress_after_days: None,
        compress_quality: "standard".to_string(),
        kb_export_dir: String::new(),
        llm_backend: "local".to_string(),
        llm_base_url: String::new(),
        llm_api_key: String::new(),
        llm_model: String::new(),
        llm_timeout_secs: 60,
        summary_model: String::new(),
        summary_preset: "default".to_string(),
        summary_prompt: None,
        auto_title: true,
        compress_ctx: 16384,
        overview_auto: false,
        overview_ctx: 16384,
        diarize_auto: false,
        diarize_live: false,
        diarize_num_speakers: 0,
        diarize_threshold: 0,
        diarize_segmentation_model: String::new(),
        diarize_embedding_model: String::new(),
        voiceprints_enabled: false,
        bookmark_phrases: Vec::new(),
        bookmark_back_offset_secs: 0,
        discord_bot_token: String::new(),
        discord_user_id: String::new(),
        discord_announce: false,
        discord_record_button: true,
        encrypted: false,
        encrypt_pending: false,
        decrypt_pending: false,
        theme_accent: String::new(),
        theme_me: String::new(),
        theme_others: String::new(),
        badge_tint: true,
        check_updates: true,
        setup_complete: true,
        sidebar_width: 280,
    }
}

fn features() -> Features {
    Features {
        llm_remote: false,
        llm_local: false,
        diarization: false,
        voiceprints: false,
        semantic: false,
        sentiment: false,
        discord: false,
        self_update: false,
        parakeet: false,
        encryption: false,
    }
}


fn line(source: Source, speaker: Option<i32>, start: u64, text: &str) -> Segment {
    Segment {
        id: Some(1),
        source,
        t_start_ms: start,
        t_end_ms: start + 1,
        text: text.into(),
        speaker,
    }
}

fn session(id: &str, started_at: u64, title: Option<&str>) -> Session {
    Session {
        id: id.into(),
        started_at,
        ended_at: Some(started_at + 90_000),
        title: title.map(|t| t.to_string()),
        audio_path: None,
        model: "base".into(),
        overview_folded_ms: None,
    }
}

#[test]
fn white_space_and_control_characters_are_those_of_the_language() {
    for n in 0..=0x10ffffu32 {
        if let Some(c) = char::from_u32(n) {
            assert_eq!(space(c), c.is_whitespace(), "{n:x}");
            assert_eq!(control(c), c.is_control(), "{n:x}");
        }
    }
}

#[test]
fn texts_are_trimmed_and_compared() {
    for s in ["", " ", "  a b ", "\t\u{3000}x\u{a0}\n", "no"] {
        assert_eq!(trim(s), s.trim());
        assert_eq!(blank(s), s.trim().is_empty());
        assert!(same(s, s));
    }
    assert!(!same("a", "b"));
    assert!(inked(&Some("x".into())) && !inked(&Some("  ".into())) && !inked(&None));
}

#[test]
fn numbers_are_written_and_read_back() {
    for n in [0u64, 7, 10, 999, u64::MAX] {
        assert_eq!(write_u64(n), n.to_string());
        assert_eq!(read_u64(&write_u64(n)), Some(n));
    }
    for n in [0i64, -1, i64::MIN, i64::MAX] {
        assert_eq!(write_i64(n), n.to_string());
    }
    assert_eq!(write_two(7), "07");
    assert_eq!(write_two(123), "123");
    for s in ["", "+", "-", "+5", "-5", "007", "2147483647", "2147483648", "-2147483648", "1a", " 1"] {
        assert_eq!(read_i32(s), s.parse::<i32>().ok(), "{s}");
        assert_eq!(read_u32(s), s.parse::<u32>().ok(), "{s}");
        assert_eq!(read_u64(s), s.parse::<u64>().ok(), "{s}");
    }
}

#[test]
fn patterns_agree_with_the_language() {
    let texts = ["", "a", "abc", "spk-1.wav", "aXbXc", " two  words "];
    for s in texts {
        for t in ["", "a", "c", "spk-", ".wav", "X"] {
            assert_eq!(starts_with(s, t), s.starts_with(t));
            assert_eq!(ends_with(s, t), s.ends_with(t));
            assert_eq!(contains(s, t), s.contains(t));
            assert_eq!(after_prefix(s, t).as_deref(), s.strip_prefix(t));
            assert_eq!(before_suffix(s, t).as_deref(), s.strip_suffix(t));
        }
        assert_eq!(split_words(s), s.split_whitespace().collect::<Vec<_>>());
        assert_eq!(replace_char(s, 'X', "--"), s.replace('X', "--"));
    }
    assert_eq!(join(&vec!["a".into(), "b".into()], ", "), "a, b");
    assert_eq!(join(&Vec::new(), ", "), "");
}

#[test]
fn orders_are_stable() {
    assert_eq!(order_by(&vec![3, 1, 3, 0]), vec![3, 1, 0, 2]);
    assert_eq!(first_by(&vec![3, 1, 3, 0], 2), vec![3, 1]);
    assert_eq!(first_by(&vec![5], 9), vec![0]);
}

#[test]
fn times_are_short() {
    assert_eq!(fmt_ms(3_661_000), "1:01:01");
    assert_eq!(fmt_ms(61_000), "1:01");
    assert_eq!(fmt_ts(3_661_000), "61:01");
    assert_eq!(fmt_dur(3_700), "1h01m");
    assert_eq!(fmt_dur(61), "1:01");
    assert_eq!(relative_time(0, 59_000), "just now");
    assert_eq!(relative_time(0, 120_000), "2m ago");
    assert_eq!(relative_time(0, 7_200_000), "2h ago");
    assert_eq!(relative_time(0, 172_800_000), "2d ago");
    assert_eq!(relative_time(9, 0), "just now");
}

#[test]
fn sessions_are_grouped_by_age() {
    let day = 86_400_000;
    let now = 100 * day;
    for (age, group, text) in [
        (0, DateGroup::Today, "Today"),
        (1, DateGroup::Yesterday, "Yesterday"),
        (6, DateGroup::ThisWeek, "This week"),
        (29, DateGroup::ThisMonth, "This month"),
        (30, DateGroup::Older, "Older"),
    ] {
        assert_eq!(date_group(now - age * day, now), group);
        assert_eq!(group.text(), text);
    }
    assert_eq!(date_group(now + day, now), DateGroup::Today);
}

#[test]
fn sessions_have_titles_and_details() {
    let s = session("sess-1", 0, Some("  "));
    assert_eq!(session_title(&s), "Recording");
    assert_eq!(session_title(&session("sess-1", 0, Some("Standup"))), "Standup");
    assert_eq!(session_secs(&s), Some(90));
    assert_eq!(session_meta_on(&s, "Jan 1, 1970", 3_600_000), "Jan 1, 1970 · 1h ago · 1:30");
    assert_eq!(short_id("sess-1749718800123"), "sess-1749718");
    assert_eq!(short_id("ab"), "ab");
}

#[test]
fn labels_follow_the_state() {
    assert_eq!(status_label(&Status::Downloading(40)), "Downloading model… 40%");
    assert_eq!(status_label(&Status::Error("x".into())), "Error: x");
    assert_eq!(job_icon("diarize"), "users");
    assert_eq!(job_icon("anything"), "sparkles");
    assert_eq!(job_detail("diarize", Some(90), 30), "~1:00 left (estimate)");
    assert_eq!(job_detail("diarize", None, 30), "processing audio…");
    assert_eq!(capture_sources("mic"), (true, false));
    assert_eq!(capture_sources("system"), (false, true));
    assert_eq!(capture_sources("app"), (true, true));
    assert_eq!(source_class(Source::Me), "me");
    assert_ne!(source_label(Source::Me), source_label(Source::Others));
}

#[test]
fn speakers_have_names_and_colors() {
    let a = line(Source::Others, Some(9), 0, "x");
    assert_eq!(line_class(&a), "others spk-1");
    assert_eq!(line_class(&line(Source::Others, Some(-1), 0, "x")), "others spk-7");
    assert_eq!(line_class_for(&a, Some(9)), "me");
    assert_eq!(line_class_for(&a, Some(8)), "others spk-1");
    assert_eq!(quick_speaker_label(&a), "Speaker 10");
    let mut names = HashMap::new();
    assert_eq!(speaker_label(&a, &names), "Speaker 10");
    names.insert(9, "Ada".to_string());
    assert_eq!(speaker_label(&a, &names), "Ada");
    assert_eq!(speaker_key("spk-9"), Some(9));
    assert_eq!(speaker_key("me"), None);
    assert_eq!(stats_label("spk-9", "Me", &names), "Ada");
    assert!(stats_class("spk-9", Some(9)).contains("me"));
}

#[test]
fn dates_have_their_shape() {
    // Mid-day, so that every time zone agrees on the year.
    let ms = 1_781_179_200_000;
    let iso = iso_date_or(ms, "unknown");
    assert_eq!(iso.len(), 10);
    assert!(iso.starts_with("2026-06-1"), "{iso}");
    let long = fmt_date(ms);
    assert!(long.starts_with("Jun 1") && long.ends_with(", 2026"), "{long}");
    assert_eq!(fmt_date_ms(ms), iso);
    assert_eq!(iso_date_or(u64::MAX / 2, "unknown"), "unknown");
    assert_eq!(fmt_date(u64::MAX / 2), "");
    let s = session("a", ms, None);
    assert_eq!(session_meta(&s, ms), format!("{long} · just now · 1:30"));
}

#[test]
fn queries_cannot_leave_their_quotes() {
    for q in ["\"", "a\" OR \"b", "x* NEAR y", "\"\"\"", "ü ß"] {
        let out = sanitize_fts(q);
        assert_eq!(out.matches('"').count() % 2, 0);
        for term in out.split(' ').filter(|t| !t.is_empty()) {
            assert!(term.starts_with('"') && term.ends_with("\"*"), "{out}");
        }
    }
}

#[test]
fn hits_are_grouped_by_session() {
    let sessions = vec![session("old", 10, None), session("new", 20, None)];
    let hits = vec![
        ("old".to_string(), line(Source::Me, None, 5, "a")),
        ("new".to_string(), line(Source::Me, None, 9, "b")),
        ("old".to_string(), line(Source::Me, None, 1, "c")),
    ];
    let groups = group_hits(&hits, &sessions);
    assert_eq!(groups[0].0, "new");
    let old: Vec<&str> = groups[1].1.iter().map(|l| l.text.as_str()).collect();
    assert_eq!(old, ["c", "a"]);
    assert_eq!(groups.iter().map(|g| g.1.len()).sum::<usize>(), hits.len());
}

#[test]
fn the_best_chunks_come_first() {
    let scores: Vec<u32> = [0.34f32, 0.35, 0.9, -0.9, f32::NAN, 0.9, 0.5]
        .iter()
        .map(|s| s.to_bits())
        .collect();
    assert_eq!(semantic_hits(&scores), vec![2, 5, 6, 1]);
    let many: Vec<u32> = (0..50).map(|i| (0.4f32 + i as f32 / 100.0).to_bits()).collect();
    let hits = semantic_hits(&many);
    assert_eq!(hits.len(), 20);
    assert_eq!((hits[0], hits[19]), (49, 30));
    let found = resolved_hits(&vec![
        ("a".to_string(), None),
        ("b".to_string(), Some(line(Source::Me, None, 0, "x"))),
    ]);
    assert_eq!(found.len(), 1);
    assert_eq!(found[0].0, "b");
    assert_eq!(index_rows(&vec![(5, 50), (6, 60)], 1), vec![(0, 5, 50)]);
    assert_eq!(index_rows(&vec![(5, 50), (6, 60)], 9), vec![(0, 5, 50), (1, 6, 60)]);
}

#[test]
fn the_search_page_counts_its_hits() {
    let mut f = features();
    assert!(!is_semantic("semantic", f));
    f.semantic = true;
    assert!(is_semantic("semantic", f) && !is_semantic("keyword", f));
    assert_eq!(search_body("  ", 3, 1), SearchBody::Prompt);
    assert_eq!(search_body("x", 0, 0), SearchBody::NoMatches);
    assert_eq!(search_body("x", 0, 1), SearchBody::Hits);
    assert_eq!(
        count_text(false, 4, 2, 1),
        "4 transcript match(es) across 2 meeting(s) · 1 in notes"
    );
    assert_eq!(count_text(false, 4, 2, 0), "4 transcript match(es) across 2 meeting(s)");
    assert_eq!(
        count_text(true, 4, 2, 0),
        "Top 4 semantic match(es) across 2 meeting(s) · ranked by meaning"
    );
    let list = vec![session("a", 0, Some("Kickoff"))];
    assert_eq!(group_head(&list, "a", 120_000), ("Kickoff".to_string(), "2m ago".to_string()));
    assert_eq!(group_head(&list, "sess-1749718800123", 0), ("sess-1749718".to_string(), String::new()));
}

#[test]
fn secrets_never_reach_the_bundle() {
    let text = "{\"discord_bot_token\":{\"nested\":1},\"llm_api_key\":null,\"n\":7,\"b\":true,\"f\":1.5}";
    let out = redacted_settings_json(text);
    let v: serde_json::Value = serde_json::from_str(&out).unwrap();
    assert_eq!(v["discord_bot_token"], serde_json::Value::String(String::new()));
    assert_eq!(v["llm_api_key"], serde_json::Value::String(String::new()));
    assert_eq!(v["n"].as_u64(), Some(7));
    assert_eq!(v["b"].as_bool(), Some(true));
    assert_eq!(v.as_object().unwrap().len(), 5);
    // Emptying twice is emptying once.
    assert_eq!(redacted_settings_json(&out), out);
    // Nothing is added, and what is no JSON becomes an empty object.
    assert_eq!(redacted_settings_json("{}"), "{}");
    assert_eq!(redacted_settings_json("no json"), "{}");
    let mut v: serde_json::Value = serde_json::from_str("{\"llm_api_key\":\"k\",\"x\":\"y\"}").unwrap();
    redact(&mut v);
    assert_eq!(v["llm_api_key"].as_str(), Some(""));
    assert_eq!(v["x"].as_str(), Some("y"));
    let mut list: serde_json::Value = serde_json::from_str("[1]").unwrap();
    redact(&mut list);
    assert_eq!(list[0].as_u64(), Some(1));
}

#[test]
fn secrets_do_not_change_the_text() {
    let with = |token: &str, key: &str| {
        format!(
            "{{\"zoom\":0.1,\"llm_api_key\":{key},\"list\":[1,-2,{{\"b\":null}}],\"discord_bot_token\":{token},\"a\":\"x\"}}"
        )
    };
    let one = redacted_settings_json(&with("\"t-1\"", "\"k-1\""));
    assert_eq!(one, redacted_settings_json(&with("\"t-2\"", "[1.5,{}]")));
    // Every other member is whole, and the keys stand in order.
    let expected = "{\n  \"a\": \"x\",\n  \"discord_bot_token\": \"\",\n  \"list\": [\n    1,\n    -2,\n    {\n      \"b\": null\n    }\n  ],\n  \"llm_api_key\": \"\",\n  \"zoom\": 0.1\n}";
    assert_eq!(one, expected);
    let value: serde_json::Value = serde_json::from_str(&with("\"\"", "\"\"")).unwrap();
    assert_eq!(serde_json::from_str::<serde_json::Value>(&one).unwrap(), value);
    assert_eq!(redacted_value_json(value), expected);
    // The reader may round a long number; the rest is still found.
    let long = redacted_settings_json("{\"x\":9.999999999999998e299,\"n\":3}");
    let back: serde_json::Value = serde_json::from_str(&long).unwrap();
    assert_eq!(back["n"].as_u64(), Some(3));
    assert!(back["x"].is_f64());
}

#[test]
fn a_query_says_something_or_is_empty() {
    assert_eq!(sanitize_fts(" \" \t\"\"\n"), "");
    assert_eq!(sanitize_fts(" \" a"), "\"a\"*");
    // The words of two halves are searched for together.
    let (a, b) = (sanitize_fts("red \"fox\""), sanitize_fts("den"));
    assert_eq!(sanitize_fts("red \"fox\" den"), format!("{a} {b}"));
}

#[test]
fn nesting_beyond_the_limit_is_refused() {
    let nest = |n: usize| format!("{}{}", "[".repeat(n), "]".repeat(n));
    let deep = redacted_settings_json(&nest(127));
    assert!(deep.starts_with('['), "{deep}");
    assert_eq!(redacted_settings_json(&nest(128)), "{}");
}

#[test]
fn the_system_is_described() {
    let mut f = features();
    assert_eq!(features_text(f), "none");
    f.llm_local = true;
    f.encryption = true;
    assert_eq!(features_text(f), "llm-local, encryption");
    let facts = SystemFacts {
        version: "1.0".into(),
        channel: "github".into(),
        os: "linux".into(),
        arch: "x86_64".into(),
        features: f,
        encrypted: true,
        sessions: 3,
        segments: 42,
        models: vec!["a.bin".into(), "b.gguf".into()],
    };
    assert_eq!(
        system_text(&facts),
        "version: 1.0\nchannel: github\nos: linux\narch: x86_64\nfeatures: llm-local, encryption\n\
         db_encrypted: true\nsessions: 3\nsegments: 42\nmodels:\n  - a.bin\n  - b.gguf\n"
    );
    assert_eq!(bundle_name(1_700_000_000), "zord-diagnostics-1700000000.zip");
    let entries = vec![
        ("b.bin".to_string(), false),
        (".hidden".to_string(), false),
        ("bundle".to_string(), true),
        ("a.bin".to_string(), false),
        ("B.bin".to_string(), false),
    ];
    assert_eq!(model_names(&entries), ["B.bin", "a.bin", "b.bin"]);
}

#[test]
fn logs_are_cut_to_their_last_lines() {
    for s in ["", "a", "a\n", "a\nb", "a\r\nb\r\n", "\n\n", "a\rb\n", "x\r"] {
        assert_eq!(split_lines(s), s.lines().collect::<Vec<_>>(), "{s:?}");
    }
    let long: Vec<String> = (0..250).map(|i| format!("line {i}")).collect();
    let (text, n) = recent_log(&long.join("\n"));
    assert_eq!(n, 200);
    assert_eq!(text, long[50..].join("\n"));
    assert_eq!(copied_text(n), "Copied last 200 log lines to clipboard");
    assert_eq!(recent_log("only"), ("only".to_string(), 1));
}

#[test]
fn file_names_are_plain() {
    assert_eq!(kb_base_name("2026-01-01", Some("My Meeting"), "sess-1"), "2026-01-01-My-Meeting-sess-1.md");
    for s in ["../../etc", "a\u{0}b", "--x--", "ü/ß", &"é".repeat(99)] {
        let once = kb_sanitize_filename(s);
        assert_eq!(kb_sanitize_filename(&once), once);
        assert!(!once.contains(['/', '\\', '\u{0}']));
    }
}

#[test]
fn notes_are_rendered_and_mirrored() {
    let s = session("sess-1", 0, Some("Kickoff"));
    let names = HashMap::new();
    let text = kb_render_on("2026-01-01", &s, Some("Short."), None, &[], &names).unwrap();
    assert!(text.contains("# Kickoff") && text.contains("Short."), "{text}");
    assert!(!mirror_needed("", None, &text));
    assert!(mirror_needed("/notes", None, &text));
    assert!(!mirror_needed("/notes", Some(&text), &text));
    assert!(mirror_needed("/notes", Some("old"), &text));
}

#[test]
fn folds_keep_the_document() {
    assert!(is_destructive(&"x".repeat(1_000), ""));
    assert!(!is_destructive("", "x"));
    let mut run = FoldRun::new("base".into(), 1);
    assert!(matches!(run.answered(true, Ok("new".into()), "base".into(), 1), FoldMove::Stop));
    let mut run = FoldRun::new("base".into(), 1);
    match run.answered(false, Ok("base and more".into()), "base".into(), 1) {
        FoldMove::Write(d) => assert_eq!(d, "base and more"),
        other => panic!("{other:?}"),
    }
    let mut run = FoldRun::new("base".into(), 1);
    assert!(matches!(run.answered(false, Err("x".into()), "base".into(), 1), FoldMove::Failed(_)));
    // The document was edited meanwhile: the fold is done again on the new one.
    let mut run = FoldRun::new("base".into(), 1);
    assert!(matches!(run.answered(false, Ok("base!".into()), "edited".into(), 2), FoldMove::Redo));
    assert_eq!((run.base.as_str(), run.stamp), ("edited", 2));
}

#[test]
fn reverts_swap_the_versions() {
    let w = revert_overview_doc(Some("new".into()), Some("old".into()));
    assert!(w.iter().any(|w| matches!(w, MetaWrite::Doc(d) if d == "old")));
    assert!(w.iter().any(|w| matches!(w, MetaWrite::Prev(d) if d == "new")));
    // Without a previous version the document becomes empty.
    let w = revert_overview_doc(Some("new".into()), None);
    assert!(w.iter().any(|w| matches!(w, MetaWrite::Doc(d) if d.is_empty())));
}

#[test]
fn transcripts_are_labelled() {
    let segs = vec![line(Source::Me, None, 0, "Hi."), line(Source::Others, Some(0), 65_000, "Hello.")];
    let mut names = HashMap::new();
    names.insert(0, "Ada".to_string());
    let text = render_labeled_transcript(&segs, &names);
    assert!(text.contains("Hi.") && text.contains("Ada") && text.contains("Hello."), "{text}");
    let noted = with_notes(&Some("remember".into()), text.clone());
    assert!(noted.contains("remember") && noted.contains("Hello."));
    assert_eq!(with_notes(&Some("  ".into()), text.clone()), text);
    assert_eq!(overview_label_on(&session("s", 0, Some(" T ")), "2026-01-01"), "2026-01-01 — T");
    assert_eq!(fold_input(&segs, &Some("dense".into()), &names).as_deref(), Some("dense"));
    assert!(fold_input(&Vec::new(), &None, &names).is_none());
}

#[test]
fn the_backend_follows_the_settings() {
    let mut s = settings();
    let mut f = features();
    assert!(matches!(backend_plan(&s, f), BackendPlan::Unavailable));
    assert!(!llm_backend_configured(&s, f));
    f.llm_local = true;
    f.llm_remote = true;
    s.llm_backend = "external".into();
    assert!(use_external(&s, f));
    assert!(matches!(backend_plan(&s, f), BackendPlan::NoModel));
    s.llm_model = "m".into();
    assert!(llm_backend_configured(&s, f));
    match backend_plan(&s, f) {
        BackendPlan::Remote(c) => assert_eq!((c.model.as_str(), c.timeout_secs), ("m", 60)),
        other => panic!("{other:?}"),
    }
    f.llm_remote = false;
    assert!(matches!(backend_plan(&s, f), BackendPlan::Local { warn: true }));
    assert!(matches!(local_model(true, None), LocalModel::Catalog));
    assert!(matches!(local_model(false, Some("x.gguf".into())), LocalModel::Custom(_)));
    assert!(matches!(local_model(false, None), LocalModel::Missing));
    assert!(missing_model_text("qwen").contains("qwen"));
    let key = ChatLlmKey::Local("a".into());
    assert!(needs_rebuild(&None, &key));
    assert!(!needs_rebuild(&Some(ChatLlmKey::Local("a".into())), &key));
    assert!(needs_rebuild(&Some(ChatLlmKey::Local("b".into())), &key));
}

#[test]
fn chats_are_grounded() {
    assert!(matches!(meeting_chat_context(0, "", None, 100, &None), MeetingContext::NoTranscript));
    assert!(transcript_fits(Some(1), 16_384) && !transcript_fits(Some(1_000_000), 16_384));
    match meeting_chat_context(1, "[me] hi", Some(1), 16_384, &None) {
        MeetingContext::Text(t) => assert!(t.contains("[me] hi")),
        other => panic!("{other:?}"),
    }
    match meeting_chat_context(1, "long", Some(1_000_000), 16_384, &Some("dense".into())) {
        MeetingContext::Text(t) => assert_eq!(t, compression_text("dense")),
        other => panic!("{other:?}"),
    }
    assert!(matches!(
        meeting_chat_context(1, "long", Some(1_000_000), 16_384, &None),
        MeetingContext::CompressFirst
    ));
    assert!(overview_grounds_chat("doc") && !overview_grounds_chat("  "));
    let system = chat_system("prompt", "context");
    assert!(system.contains("prompt") && system.contains("context"));
    let failed = chat_failure("offline");
    let turns = vec![(true, "q".to_string()), (false, failed), (true, "r".to_string())];
    let sent = chat_turns(&turns);
    assert!(sent.iter().all(|(role, _)| *role == ChatRole::User));
    assert_eq!(sent.len(), 2);
}

#[test]
fn generated_texts_are_stored_unless_cancelled() {
    assert!(matches!(after_generation(Ok("t".into()), true, "", ), Generated::Discard));
    assert!(matches!(
        after_generation(Ok("t".into()), false, "/notes"),
        Generated::Store { mirror: true, .. }
    ));
    assert!(matches!(
        after_generation(Ok("t".into()), false, ""),
        Generated::Store { mirror: false, .. }
    ));
    assert!(matches!(after_generation(Err("x".into()), false, ""), Generated::Failed(_)));
    assert!(wants_title(true, &Some(session("a", 0, None))));
    assert!(!wants_title(true, &Some(session("a", 0, Some("Mine")))));
    assert!(!wants_title(false, &Some(session("a", 0, None))));
    let list = vec![session("a", 2, None), session("b", 1, None)];
    let order = recompress_order(&list, &vec![3, 0]);
    assert_eq!(order, vec![0]);
    assert!(recompress_progress(1, 3).contains('3'));
}

#[test]
fn work_is_reported() {
    assert_eq!(Failure::Chat.text("no answer"), "chat: no answer");
    assert_eq!(Failure::SystemAudio.text("denied"), "System audio off: denied");
    assert_eq!(Report::NoTracks.text(), "No audio tracks found.");
    assert_eq!(recompressed_text(3), "Re-compressed 3 session(s).");
    assert_eq!(selection_text("large-v3"), "Re-transcribing selection with large-v3…");
    assert_eq!(WritingNotice::Compressed.text(), "Compressed.");
    assert_eq!(WritingNotice::Thinking.text(), "Thinking…");
}

#[test]
fn only_ended_sessions_are_folded() {
    assert!(!can_fold(&None));
    let mut s = session("a", 5, None);
    s.ended_at = None;
    assert!(!can_fold(&Some(s.clone())));
    s.ended_at = Some(9);
    assert!(can_fold(&Some(s)));
    assert_eq!(skipped_text("a"), "Session a not found or not yet ended — skipping.");
    assert_eq!(folded_text("2026-01-02 — Weekly"), "Overview updated from 2026-01-02 — Weekly.");
}

#[test]
fn the_embedding_model_has_five_files() {
    let files = embed_files();
    assert_eq!(files.len(), 5);
    assert_eq!(files[0].0, "onnx/model.onnx");
    assert_eq!(
        files[1].1,
        "https://huggingface.co/Xenova/bge-small-en-v1.5/resolve/main/tokenizer.json"
    );
    let mut found: Vec<String> = files.iter().map(|f| f.0.to_string()).collect();
    found.push("README.md".to_string());
    assert!(semantic_model_present(&found));
    found.remove(2);
    assert!(!semantic_model_present(&found));
    assert!(!semantic_model_present(&Vec::new()));
}

#[test]
fn groups_of_hits_are_headed() {
    assert_eq!(group_meta(3, "2d ago"), "3 match · 2d ago");
}

#[test]
fn chats_are_built_from_the_settings() {
    let mut s = settings();
    let mut f = features();
    f.llm_local = true;
    f.llm_remote = true;
    s.llm_backend = "local".to_string();
    s.llm_model = "qwen".to_string();
    assert!(chat_llm_key(&s, f, None).is_none());
    let local = chat_llm_key(&s, f, Some("/models/a.gguf".to_string()));
    assert!(matches!(local, Some(ChatLlmKey::Local(p)) if p == "/models/a.gguf"));
    s.llm_backend = "external".to_string();
    let remote = chat_llm_key(&s, f, None);
    assert!(matches!(remote, Some(ChatLlmKey::Remote(c)) if c.model == "qwen"));
    f.llm_remote = false;
    f.llm_local = false;
    assert!(chat_llm_key(&s, f, Some("a".to_string())).is_none());
}
