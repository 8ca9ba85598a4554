use std::collections::{BTreeMap, HashMap};
use std::time::{Duration, Instant};

use zord_gui::diagnostics::redacted_settings_json;
use zord_gui::kb::{kb_sanitize_filename, kb_session_filename, kb_short_id};
use zord_gui::kb_note::{
    file_to_rename, files_to_remove, kb_render_session_markdown, mirror_name, mirror_needed,
};
use zord_gui::model::{Segment, Session, Source};
use zord_gui::overview::{
    load_overview_doc, overview_session_label, save_overview_doc_with_snapshot, unfolded_sessions,
    MetaWrite,
};
use zord_gui::pipeline;
use zord_gui::search::sanitize_fts;
use zord_gui::transcribe::effective_transcribe_workers;

fn pad_to_wallclock(start: Instant, produced: u64, mono: Vec<f32>, rate: u32) -> Vec<f32> {
    let elapsed_ms = start.elapsed().as_millis() as u64;
    pipeline::pad_to_wallclock(elapsed_ms, produced, mono, rate, 0.0f32)
}

#[test]
fn sanitize_fts_quotes_and_joins() {
    assert_eq!(sanitize_fts("hello world"), "\"hello\"* \"world\"*");
    // Embedded quotes can't escape the term.
    assert_eq!(sanitize_fts("a\"b"), "\"ab\"*");
    assert_eq!(sanitize_fts("   "), "");
    assert_eq!(sanitize_fts("\" \""), "");
}

#[test]
fn pad_to_wallclock_fills_gap_to_elapsed() {
    let rate = 1_000u32; // 1 sample == 1 ms, keeps the math readable
    let start = Instant::now() - Duration::from_secs(2);
    let frame = vec![0.5f32; 100];
    let out = pad_to_wallclock(start, 0, frame.clone(), rate);
    // ~2000 ms elapsed → ~1900 samples of leading silence + the frame.
    assert!(out.len() >= 1_900, "padded to {} samples", out.len());
    assert_eq!(&out[out.len() - frame.len()..], &frame[..]);
    assert!(out[..out.len() - frame.len()].iter().all(|&s| s == 0.0));
}

#[test]
fn pad_to_wallclock_ignores_jitter_and_keeps_up_to_date_streams() {
    let rate = 48_000u32;
    let start = Instant::now() - Duration::from_secs(1);
    let frame = vec![0.5f32; 480];
    // Producer already at (or ahead of) wall-clock: frame passes through.
    let out = pad_to_wallclock(start, 10 * 48_000, frame.clone(), rate);
    assert_eq!(out, frame);
    // Sub-30ms shortfall is jitter, not a gap.
    let out = pad_to_wallclock(start, 48_000 - 480 - 100, frame.clone(), rate);
    assert_eq!(out, frame);
}

fn make_session(id: &str, ended_at: Option<u64>) -> Session {
    Session {
        id: id.to_string(),
        started_at: ended_at.unwrap_or(0).saturating_sub(3_600_000),
        ended_at,
        title: None,
        audio_path: None,
        model: "test".to_string(),
        overview_folded_ms: None,
    }
}

fn stamped(mut s: Session, at_ms: u64) -> Session {
    s.overview_folded_ms = Some(at_ms);
    s
}

#[test]
fn unfolded_sessions_empty_when_all_stamped() {
    let sessions = vec![
        stamped(make_session("a", Some(1000)), 5000),
        stamped(make_session("b", Some(2000)), 5000),
    ];
    let result = unfolded_sessions(&sessions);
    assert!(result.is_empty(), "stamped sessions must not be selected");
}

#[test]
fn unfolded_sessions_returns_unstamped_oldest_first() {
    let sessions = vec![
        make_session("newest", Some(5000)),
        stamped(make_session("folded", Some(4000)), 9000),
        make_session("middle", Some(3000)),
        make_session("old", Some(1000)),
    ];
    let result = unfolded_sessions(&sessions);
    assert_eq!(result.len(), 3);
    // oldest-first order by ended_at; the stamped one is excluded even
    // though it sits between unstamped ones (no high-water skipping).
    assert_eq!(result[0].id, "old");
    assert_eq!(result[1].id, "middle");
    assert_eq!(result[2].id, "newest");
}

#[test]
fn unfolded_sessions_skips_live_sessions() {
    // Sessions with ended_at = None are still recording — must not appear.
    let sessions = vec![make_session("live", None), make_session("done", Some(2000))];
    let result = unfolded_sessions(&sessions);
    assert_eq!(result.len(), 1);
    assert_eq!(result[0].id, "done");
}

#[test]
fn unfolded_sessions_retries_older_unstamped_after_newer_fold() {
    // A newer session folding (auto path) must NOT hide an older session that
    // never folded.
    let sessions = vec![
        stamped(make_session("auto-folded-new", Some(9000)), 9001),
        make_session("missed-old", Some(1000)),
    ];
    let result = unfolded_sessions(&sessions);
    assert_eq!(result.len(), 1);
    assert_eq!(result[0].id, "missed-old");
}

// A document and its previous version, as the writes leave them.
fn stored(doc: &mut Option<String>, prev: &mut Option<String>, writes: Vec<MetaWrite>) {
    for w in writes {
        match w {
            MetaWrite::Doc(d) => *doc = Some(d),
            MetaWrite::Prev(p) => *prev = Some(p),
        }
    }
}

#[test]
fn load_overview_doc_returns_empty_when_unset() {
    let (text, ts) = load_overview_doc(None);
    assert!(text.is_empty());
    assert_eq!(ts, 0);
    assert_eq!(load_overview_doc(Some(("doc".to_string(), 7))), ("doc".to_string(), 7));
}

#[test]
fn save_overview_doc_with_snapshot_round_trips() {
    let (mut doc, mut prev) = (None, None);
    // First write: no prev (nothing to snapshot yet).
    let w = save_overview_doc_with_snapshot(&doc, "v1".to_string());
    stored(&mut doc, &mut prev, w);
    assert_eq!(doc.as_deref(), Some("v1"));
    assert_eq!(prev, None);
    // Second write: prev should now hold "v1".
    let w = save_overview_doc_with_snapshot(&doc, "v2".to_string());
    stored(&mut doc, &mut prev, w);
    assert_eq!(doc.as_deref(), Some("v2"));
    assert_eq!(prev.as_deref(), Some("v1"));
}

#[test]
fn overview_session_label_uses_title_else_id() {
    // 2026-06-11 12:00 UTC — mid-day so every timezone agrees on the year.
    let mut s = make_session("sess-99", Some(1_781_179_200_000));
    s.started_at = 1_781_179_200_000;
    let label = overview_session_label(&s);
    assert!(label.ends_with(" — sess-99"), "id fallback: {label}");
    // Date prefix is YYYY-MM-DD (local timezone, so only check the shape).
    let date = label.split(" — ").next().unwrap();
    assert_eq!(date.len(), 10, "date shape: {date}");
    assert!(date.starts_with("202"), "plausible year: {date}");

    s.title = Some("  Standup  ".into());
    let label = overview_session_label(&s);
    assert!(label.ends_with(" — Standup"), "trimmed title: {label}");

    // Whitespace-only title falls back to the id.
    s.title = Some("   ".into());
    let label = overview_session_label(&s);
    assert!(label.ends_with(" — sess-99"), "blank title: {label}");
}

#[test]
fn effective_transcribe_workers_caps_and_bounds() {
    // cap bounds by tracks: 4 workers / 2 tracks → 2 effective.
    assert_eq!(effective_transcribe_workers(4, 2), 2);
    // cap is the binding limit: 2 workers / 5 tracks → 2 effective.
    assert_eq!(effective_transcribe_workers(2, 5), 2);
    // exact match: 3 workers / 3 tracks → 3 effective.
    assert_eq!(effective_transcribe_workers(3, 3), 3);
    // sequential default: 1 worker / any tracks → 1.
    assert_eq!(effective_transcribe_workers(1, 10), 1);
    // zero tracks → floor to 1 (no divide-by-zero, no panic).
    assert_eq!(effective_transcribe_workers(4, 0), 1);
    // cap already clamped to 1 by caller; floor holds.
    assert_eq!(effective_transcribe_workers(1, 0), 1);
}

#[test]
fn redacted_settings_json_clears_secrets_preserves_rest() {
    let settings = "{\"discord_bot_token\":\"super-secret-bot-token\",\
        \"llm_api_key\":\"sk-very-secret-key\",\
        \"llm_base_url\":\"http://localhost:1234\",\
        \"model\":\"large-v3-turbo-q5_0\"}";
    let json = redacted_settings_json(settings);
    let v: serde_json::Value = serde_json::from_str(&json).expect("valid JSON");

    // Secrets must be empty.
    assert_eq!(
        v["discord_bot_token"].as_str().unwrap_or("_not_empty_"),
        "",
        "discord_bot_token must be redacted"
    );
    assert_eq!(
        v["llm_api_key"].as_str().unwrap_or("_not_empty_"),
        "",
        "llm_api_key must be redacted"
    );

    // Non-secret fields must survive intact.
    assert_eq!(
        v["llm_base_url"].as_str().unwrap_or(""),
        "http://localhost:1234",
        "llm_base_url must not be redacted"
    );
    assert_eq!(
        v["model"].as_str().unwrap_or(""),
        "large-v3-turbo-q5_0",
        "model must not be redacted"
    );
}

#[test]
fn kb_sanitize_filename_basic() {
    // Path separators and illegal chars become hyphens.
    assert_eq!(kb_sanitize_filename("hello/world"), "hello-world");
    assert_eq!(kb_sanitize_filename("foo\\bar"), "foo-bar");
    assert_eq!(kb_sanitize_filename("a:b*c?d\"e<f>g|h"), "a-b-c-d-e-f-g-h");
    // Whitespace runs collapse.
    assert_eq!(kb_sanitize_filename("hello   world"), "hello-world");
    // Leading/trailing hyphens stripped.
    assert_eq!(kb_sanitize_filename("  spaces  "), "spaces");
    // Cap at 80 chars.
    let long = "a".repeat(100);
    assert_eq!(kb_sanitize_filename(&long).len(), 80);
    // Empty string stays empty.
    assert_eq!(kb_sanitize_filename(""), "");
}

#[test]
fn kb_short_id_is_full_sanitized_id() {
    // Production ids are `sess-<epoch-ms>`; the tag is the FULL id so two
    // sessions started exactly ~27.8 h apart (same trailing 8 digits of
    // the ms timestamp) can never collide in the remove/rename globs.
    assert_eq!(kb_short_id("sess-1749718800123"), "sess-1749718800123");
    assert_ne!(
        kb_short_id("sess-1749718800123"),
        kb_short_id("sess-1749818800123")
    );
    // Sanitized: separators and illegal chars can't escape the folder.
    assert!(!kb_short_id("we/ird\\id").contains(['/', '\\']));
}

#[test]
fn kb_session_filename_format() {
    // Fixed epoch: 2026-01-01 00:00:00 UTC → local may vary, but year is 2026.
    let ts = 1_735_689_600_000u64; // 2026-01-01 00:00:00 UTC
    let sid = "sess-1735689600000";
    let f = kb_session_filename(ts, Some("My Meeting"), sid);
    // Must start with sessions/, end with the FULL id tag + .md.
    assert!(f.starts_with("sessions/"), "prefix: {f}");
    assert!(f.ends_with("-sess-1735689600000.md"), "id suffix: {f}");
    assert!(f.contains("My-Meeting"), "title included: {f}");
    // No title → the id tag is used as the title part too.
    let f2 = kb_session_filename(ts, None, sid);
    assert!(f2.starts_with("sessions/"), "{f2}");
    assert!(f2.ends_with("-sess-1735689600000.md"), "{f2}");
}

#[test]
fn kb_render_session_markdown_golden() {
    let session = Session {
        id: "test-session-id".to_string(),
        started_at: 1_735_689_600_000,
        ended_at: Some(1_735_689_600_000 + 5 * 60 * 1000), // 5 min
        title: Some("Test Meeting".to_string()),
        audio_path: None,
        model: "large-v3-turbo-q5_0".to_string(),
        overview_folded_ms: None,
    };
    let seg = Segment {
        id: None,
        source: Source::Me,
        t_start_ms: 0,
        t_end_ms: 1000,
        text: "Hello world.".to_string(),
        speaker: None,
    };
    let names = HashMap::new();

    // With transcript only.
    let md = kb_render_session_markdown(&session, None, None, std::slice::from_ref(&seg), &names)
        .unwrap();
    assert!(md.contains("# Test Meeting"), "title header: {md}");
    assert!(md.contains("## Transcript"), "transcript section: {md}");
    assert!(md.contains("Hello world."), "segment text: {md}");
    assert!(!md.contains("## Summary"), "no summary section: {md}");

    // With summary and compressed — should use Condensed transcript, not Transcript.
    let md2 = kb_render_session_markdown(
        &session,
        Some("Short summary."),
        Some("Condensed text."),
        std::slice::from_ref(&seg),
        &names,
    )
    .unwrap();
    assert!(md2.contains("## Summary"), "summary section: {md2}");
    assert!(md2.contains("Short summary."), "summary text: {md2}");
    assert!(
        md2.contains("## Condensed transcript"),
        "condensed section: {md2}"
    );
    assert!(
        !md2.contains("## Transcript"),
        "transcript section absent when condensed: {md2}"
    );

    // Empty → None.
    let nothing = kb_render_session_markdown(&session, None, None, &[], &names);
    assert!(nothing.is_none(), "empty session → None");
}

#[test]
fn kb_mirror_rename_moves_file() {
    // A session is written, then its title changes — the old file is found under
    // its id and takes the new name, so that no stale file is left.
    let sid = "00000000-0000-0000-0000-test11223344";
    let mut session = make_session(sid, Some(1_735_689_600_000));
    session.started_at = 1_735_689_600_000;
    session.title = Some("Old Title".to_string());
    let old_name = mirror_name(&session, "2025-01-01");
    assert!(old_name.contains("Old-Title"), "title in filename: {old_name}");
    session.title = Some("New Title".to_string());
    let new_name = mirror_name(&session, "2025-01-01");
    assert!(new_name.contains("New-Title"), "new title in filename: {new_name}");
    assert!(!new_name.contains("Old-Title"), "old name gone: {new_name}");
    let names = vec!["unrelated.md".to_string(), old_name];
    assert_eq!(file_to_rename(&names, sid, &new_name), Some(1));
    // Once it has its name, nothing is renamed.
    let names = vec!["unrelated.md".to_string(), new_name.clone()];
    assert_eq!(file_to_rename(&names, sid, &new_name), None);
}

/// Mirrors a session into a folder of texts by name.
fn mirror_into(folder: &mut BTreeMap<String, String>, session: &Session, text: &str) {
    let base = mirror_name(session, "2025-01-01");
    let names: Vec<String> = folder.keys().cloned().collect();
    if let Some(i) = file_to_rename(&names, &session.id, &base) {
        let moved = folder.remove(&names[i]).unwrap();
        folder.insert(base.clone(), moved);
    }
    let existing = folder.get(&base).cloned();
    if mirror_needed("/notes", existing.as_deref(), text) {
        folder.insert(base, text.to_string());
    }
}

#[test]
fn a_new_title_leaves_one_file() {
    let sid = "00000000-0000-0000-0000-test11223344";
    let mut session = make_session(sid, Some(1_735_689_600_000));
    let mut folder = BTreeMap::from([("unrelated.md".to_string(), "kept".to_string())]);
    session.title = Some("Old Title".to_string());
    mirror_into(&mut folder, &session, "old text");
    assert_eq!(folder.len(), 2);
    session.title = Some("New Title".to_string());
    mirror_into(&mut folder, &session, "new text");
    let name = mirror_name(&session, "2025-01-01");
    assert!(name.contains("New-Title") && !name.contains("Old-Title"), "{name}");
    assert!(name.ends_with(&format!("-{}.md", kb_short_id(sid))), "{name}");
    assert_eq!(folder.get(&name).map(String::as_str), Some("new text"));
    assert_eq!(folder.get("unrelated.md").map(String::as_str), Some("kept"));
    assert_eq!(folder.len(), 2);
}

#[test]
fn kb_remove_session_deletes_by_short_id() {
    let sid = "00000000-0000-0000-0000-aabbccddeeff";
    let short = kb_short_id(sid);
    let names = vec![
        "2026-01-01-other.md".to_string(),
        format!("2026-01-01-my-meeting-{short}.md"),
    ];
    assert_eq!(files_to_remove(&names, sid), vec![1]);
}
