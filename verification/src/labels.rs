//! The words and style classes that the window shows.

use std::collections::HashMap;

use crate::model::{Segment, Session, Source, Status};
#[allow(unused_imports)]
use crate::number::{
    decimal, read_i32, signed, spelled, two_digits, write_i64, write_two, write_u64,
};
#[allow(unused_imports)]
use crate::pattern::{after_prefix, begins};
#[allow(unused_imports)]
use crate::text::{blank, chars_of, has_ink, same, text_of};
use vstd::prelude::*;

verus! {

// ---------------------------------------------------------------------------
// Times
// ---------------------------------------------------------------------------

/// `m:ss`, or `h:mm:ss` from one hour on.
pub open spec fn clock(ms: nat) -> Seq<char> {
    let s = ms / 1000;
    if s / 3600 > 0 {
        decimal(s / 3600) + ":"@ + two_digits((s % 3600) / 60) + ":"@ + two_digits(s % 60)
    } else {
        decimal((s % 3600) / 60) + ":"@ + two_digits(s % 60)
    }
}

/// A duration as `m:ss`, or `h:mm:ss` from one hour on.
pub fn fmt_ms(ms: u64) -> (r: String)
    ensures
        r@ == clock(ms as nat),
{
    let s: u64 = ms / 1000;
    let h: u64 = s / 3600;
    let m: u64 = (s % 3600) / 60;
    let sec: u64 = s % 60;
    if h > 0 {
        let mut r = write_u64(h);
        r.push_str(":");
        r.push_str(&write_two(m));
        r.push_str(":");
        r.push_str(&write_two(sec));
        r
    } else {
        let mut r = write_u64(m);
        r.push_str(":");
        r.push_str(&write_two(sec));
        r
    }
}

/// `mm:ss`; minutes are not folded into hours.
pub open spec fn stamp(ms: nat) -> Seq<char> {
    two_digits(ms / 1000 / 60) + ":"@ + two_digits(ms / 1000 % 60)
}

/// The time stamp of a transcript line.
pub fn fmt_ts(ms: u64) -> (r: String)
    ensures
        r@ == stamp(ms as nat),
{
    let s: u64 = ms / 1000;
    let mut r = write_two(s / 60);
    r.push_str(":");
    r.push_str(&write_two(s % 60));
    r
}

/// `m:ss` below one hour, `XhYYm` from there on.
pub open spec fn span(secs: nat) -> Seq<char> {
    if secs >= 3600 {
        decimal(secs / 3600) + "h"@ + two_digits(secs % 3600 / 60) + "m"@
    } else {
        decimal(secs / 60) + ":"@ + two_digits(secs % 60)
    }
}

/// The length of a recording.
pub fn fmt_dur(secs: u64) -> (r: String)
    ensures
        r@ == span(secs as nat),
{
    if secs >= 3600 {
        let mut r = write_u64(secs / 3600);
        r.push_str("h");
        r.push_str(&write_two(secs % 3600 / 60));
        r.push_str("m");
        r
    } else {
        let mut r = write_u64(secs / 60);
        r.push_str(":");
        r.push_str(&write_two(secs % 60));
        r
    }
}

/// How long ago `ms` was at `now`; a time in the future counts as now.
pub open spec fn ago(ms: nat, now: nat) -> Seq<char> {
    let secs = if now >= ms {
        ((now - ms) / 1000) as nat
    } else {
        0
    };
    if secs < 60 {
        "just now"@
    } else if secs < 3600 {
        decimal(secs / 60) + "m ago"@
    } else if secs < 86_400 {
        decimal(secs / 3600) + "h ago"@
    } else {
        decimal(secs / 86_400) + "d ago"@
    }
}

/// "just now", "5m ago", "2h ago" or "3d ago".
pub fn relative_time(ms: u64, now: u64) -> (r: String)
    ensures
        r@ == ago(ms as nat, now as nat),
{
    let secs: u64 = now.saturating_sub(ms) / 1000;
    if secs < 60 {
        return "just now".to_string();
    }
    if secs < 3600 {
        let mut r = write_u64(secs / 60);
        r.push_str("m ago");
        r
    } else if secs < 86_400 {
        let mut r = write_u64(secs / 3600);
        r.push_str("h ago");
        r
    } else {
        let mut r = write_u64(secs / 86_400);
        r.push_str("d ago");
        r
    }
}

/// The sidebar's date groups.
#[derive(Debug, Clone, Copy, PartialEq, Eq, Structural)]
pub enum DateGroup {
    Today,
    Yesterday,
    ThisWeek,
    ThisMonth,
    Older,
}

impl DateGroup {
    /// The heading of a group.
    pub open spec fn heading(self) -> Seq<char> {
        match self {
            DateGroup::Today => "Today"@,
            DateGroup::Yesterday => "Yesterday"@,
            DateGroup::ThisWeek => "This week"@,
            DateGroup::ThisMonth => "This month"@,
            DateGroup::Older => "Older"@,
        }
    }

    /// The heading of a group.
    pub fn text(self) -> (r: &'static str)
        ensures
            r@ == self.heading(),
    {
        match self {
            DateGroup::Today => "Today",
            DateGroup::Yesterday => "Yesterday",
            DateGroup::ThisWeek => "This week",
            DateGroup::ThisMonth => "This month",
            DateGroup::Older => "Older",
        }
    }
}

/// The group of a day that lies `days` days back; days to come are today.
pub open spec fn group_of(days: int) -> DateGroup {
    if days <= 0 {
        DateGroup::Today
    } else if days == 1 {
        DateGroup::Yesterday
    } else if days < 7 {
        DateGroup::ThisWeek
    } else if days < 30 {
        DateGroup::ThisMonth
    } else {
        DateGroup::Older
    }
}

/// The date group of a session, by days of universal time.
pub fn date_group(started_at: u64, now: u64) -> (r: DateGroup)
    ensures
        r == group_of(now as int / 86_400_000 - started_at as int / 86_400_000),
{
    let day: u64 = started_at / 86_400_000;
    let today: u64 = now / 86_400_000;
    if today <= day {
        return DateGroup::Today;
    }
    let d: u64 = today - day;
    if d == 1 {
        DateGroup::Yesterday
    } else if d < 7 {
        DateGroup::ThisWeek
    } else if d < 30 {
        DateGroup::ThisMonth
    } else {
        DateGroup::Older
    }
}

/// Sessions listed newest first fall into groups that never go back: a later
/// start never lands in an older group.
pub proof fn date_groups_follow_time(a: u64, b: u64, now: u64)
    requires
        a <= b,
    ensures
        ({
            let ga = group_of(now as int / 86_400_000 - a as int / 86_400_000);
            let gb = group_of(now as int / 86_400_000 - b as int / 86_400_000);
            group_rank(gb) <= group_rank(ga)
        }),
{
    assert(a as int / 86_400_000 <= b as int / 86_400_000);
}

/// The place of a group in the sidebar, from the top.
pub open spec fn group_rank(g: DateGroup) -> int {
    match g {
        DateGroup::Today => 0,
        DateGroup::Yesterday => 1,
        DateGroup::ThisWeek => 2,
        DateGroup::ThisMonth => 3,
        DateGroup::Older => 4,
    }
}

// ---------------------------------------------------------------------------
// Sessions
// ---------------------------------------------------------------------------

/// A session's title, or a plain label where it has none.
pub open spec fn title_of(s: Session) -> Seq<char> {
    if has_ink(s.title) {
        s.title->0@
    } else {
        "Recording"@
    }
}

/// A session's title, or a plain label where it has none.
pub fn session_title(s: &Session) -> (r: String)
    ensures
        r@ == title_of(*s),
{
    match &s.title {
        Some(t) => if blank(t) {
            "Recording".to_string()
        } else {
            t.clone()
        },
        None => "Recording".to_string(),
    }
}

/// The length of an ended session in whole seconds.
pub open spec fn seconds_of(s: Session) -> Option<nat> {
    match s.ended_at {
        Some(e) => Some(
            if e >= s.started_at {
                ((e - s.started_at) / 1000) as nat
            } else {
                0
            },
        ),
        None => None,
    }
}

/// The length of an ended session in whole seconds.
pub fn session_secs(s: &Session) -> (r: Option<u64>)
    ensures
        match r {
            Some(n) => seconds_of(*s) == Some(n as nat),
            None => seconds_of(*s) is None,
        },
{
    match s.ended_at {
        Some(e) => Some(e.saturating_sub(s.started_at) / 1000),
        None => None,
    }
}

/// The sidebar's second line for a session with this date text.
pub open spec fn meta_of(s: Session, date: Seq<char>, now: nat) -> Seq<char> {
    let head = date + " · "@ + ago(s.started_at as nat, now);
    match seconds_of(s) {
        Some(n) => if n > 0 {
            head + " · "@ + span(n)
        } else {
            head
        },
        None => head,
    }
}

/// The sidebar's second line: date, how long ago, and the length when known.
pub fn session_meta_on(s: &Session, date: &str, now: u64) -> (r: String)
    ensures
        r@ == meta_of(*s, date@, now as nat),
{
    let mut r = date.to_string();
    r.push_str(" · ");
    r.push_str(&relative_time(s.started_at, now));
    if let Some(n) = session_secs(s) {
        if n > 0 {
            r.push_str(" · ");
            r.push_str(&fmt_dur(n));
        }
    }
    r
}

/// The first twelve characters of an id.
pub fn short_id(id: &str) -> (r: String)
    ensures
        r@ == (if id@.len() <= 12 {
            id@
        } else {
            id@.take(12)
        }),
{
    let v = chars_of(id);
    let n: usize = if v.len() < 12 {
        v.len()
    } else {
        12
    };
    assert(v@.subrange(0, n as int) =~= v@.take(n as int));
    assert(v@.take(v@.len() as int) =~= v@);
    text_of(&v, 0, n)
}

// ---------------------------------------------------------------------------
// Status and jobs
// ---------------------------------------------------------------------------

/// The text of a status.
pub open spec fn status_text(st: Status) -> Seq<char> {
    match st {
        Status::Idle => "Idle"@,
        Status::PreparingModel => "Preparing model…"@,
        Status::Downloading(p) => "Downloading model… "@ + decimal(p as nat) + "%"@,
        Status::Recording => "Recording"@,
        Status::Error(e) => "Error: "@ + e@,
    }
}

/// The text of a status.
pub fn status_label(st: &Status) -> (r: String)
    ensures
        r@ == status_text(*st),
{
    match st {
        Status::Idle => "Idle".to_string(),
        Status::PreparingModel => "Preparing model…".to_string(),
        Status::Downloading(p) => {
            let mut r = "Downloading model… ".to_string();
            r.push_str(&write_u64(*p as u64));
            r.push_str("%");
            r
        },
        Status::Recording => "Recording".to_string(),
        Status::Error(e) => {
            let mut r = "Error: ".to_string();
            r.push_str(e);
            r
        },
    }
}

/// The icon of a job kind.
pub open spec fn icon_of_job(kind: Seq<char>) -> Seq<char> {
    if kind == "compress"@ {
        "archive"@
    } else if kind == "overview"@ {
        "overview"@
    } else if kind == "diarize"@ {
        "users"@
    } else if kind == "retranscribe"@ {
        "refresh"@
    } else {
        "sparkles"@
    }
}

/// The icon of a job kind.
pub fn job_icon(kind: &str) -> (r: &'static str)
    ensures
        r@ == icon_of_job(kind@),
{
    if same(kind, "compress") {
        "archive"
    } else if same(kind, "overview") {
        "overview"
    } else if same(kind, "diarize") {
        "users"
    } else if same(kind, "retranscribe") {
        "refresh"
    } else {
        "sparkles"
    }
}

/// What a running job is doing; a diarization counts its estimate down.
pub open spec fn detail_of_job(kind: Seq<char>, est: Option<u64>, elapsed: u64) -> Seq<char> {
    if kind == "diarize"@ {
        match est {
            Some(e) => "~"@ + span(
                if e >= elapsed {
                    (e - elapsed) as nat
                } else {
                    0
                },
            ) + " left (estimate)"@,
            None => "processing audio…"@,
        }
    } else if kind == "retranscribe"@ {
        "transcribing the kept audio…"@
    } else if kind == "overview"@ {
        "compressing + synthesizing…"@
    } else if kind == "summarize"@ {
        "generating notes…"@
    } else if kind == "compress"@ {
        "condensing…"@
    } else {
        "running…"@
    }
}

/// What a running job is doing.
pub fn job_detail(kind: &str, est: Option<u64>, elapsed: u64) -> (r: String)
    ensures
        r@ == detail_of_job(kind@, est, elapsed),
{
    if same(kind, "diarize") {
        match est {
            Some(e) => {
                let mut r = "~".to_string();
                r.push_str(&fmt_dur(e.saturating_sub(elapsed)));
                r.push_str(" left (estimate)");
                r
            },
            None => "processing audio…".to_string(),
        }
    } else if same(kind, "retranscribe") {
        "transcribing the kept audio…".to_string()
    } else if same(kind, "overview") {
        "compressing + synthesizing…".to_string()
    } else if same(kind, "summarize") {
        "generating notes…".to_string()
    } else if same(kind, "compress") {
        "condensing…".to_string()
    } else {
        "running…".to_string()
    }
}

// ---------------------------------------------------------------------------
// Capture
// ---------------------------------------------------------------------------

/// Which channels a capture mode records: microphone, system audio.
pub open spec fn captured(mode: Seq<char>) -> (bool, bool) {
    (mode != "system"@, mode != "mic"@)
}

/// Which channels a capture mode records.
pub fn capture_sources(mode: &str) -> (r: (bool, bool))
    ensures
        r == captured(mode@),
{
    (!same(mode, "system"), !same(mode, "mic"))
}

/// Every mode records something.
pub proof fn every_mode_records(mode: Seq<char>)
    ensures
        captured(mode).0 || captured(mode).1,
{
    reveal_strlit("system");
    reveal_strlit("mic");
    assert("system"@.len() != "mic"@.len());
}

// ---------------------------------------------------------------------------
// Speakers
// ---------------------------------------------------------------------------

/// The name of a channel.
pub open spec fn source_name(s: Source) -> Seq<char> {
    match s {
        Source::Me => "Me"@,
        Source::Others => "Others"@,
    }
}

/// The name of a channel.
pub fn source_label(s: Source) -> (r: &'static str)
    ensures
        r@ == source_name(s),
{
    match s {
        Source::Me => "Me",
        Source::Others => "Others",
    }
}

/// The style class of a channel.
pub open spec fn class_of_source(s: Source) -> Seq<char> {
    match s {
        Source::Me => "me"@,
        Source::Others => "others"@,
    }
}

/// The style class of a channel.
pub fn source_class(s: Source) -> (r: &'static str)
    ensures
        r@ == class_of_source(s),
{
    match s {
        Source::Me => "me",
        Source::Others => "others",
    }
}

/// The style class of a line: its channel, and one of eight rotating classes
/// for a diarized speaker.
pub open spec fn class_of_line(seg: Segment) -> Seq<char> {
    match (seg.source, seg.speaker) {
        (Source::Others, Some(idx)) => "others spk-"@ + decimal((idx as int % 8) as nat),
        _ => class_of_source(seg.source),
    }
}

/// The style class of a transcript line.
pub fn line_class(seg: &Segment) -> (r: String)
    ensures
        r@ == class_of_line(*seg),
{
    match (seg.source, seg.speaker) {
        (Source::Others, Some(idx)) => {
            let turn: u64 = (idx as i64 + 0x8000_0000) as u64 % 8;
            let mut r = "others spk-".to_string();
            r.push_str(&write_u64(turn));
            r
        },
        _ => source_class(seg.source).to_string(),
    }
}

/// The line was spoken by the user, whatever channel it came through.
pub open spec fn is_mine(seg: Segment, me: Option<i32>) -> bool {
    seg.source is Others && seg.speaker is Some && seg.speaker == me
}

/// The style class of a line, where the user's own speaker track counts as the
/// user.
pub fn line_class_for(seg: &Segment, me_speaker: Option<i32>) -> (r: String)
    ensures
        r@ == (if is_mine(*seg, me_speaker) {
            "me"@
        } else {
            class_of_line(*seg)
        }),
{
    match (seg.source, seg.speaker, me_speaker) {
        (Source::Others, Some(idx), Some(me)) => if idx == me {
            "me".to_string()
        } else {
            line_class(seg)
        },
        _ => line_class(seg),
    }
}

/// The number of the line's speaker, counted from one, can be written down.
pub open spec fn numbered(seg: Segment) -> bool {
    seg.source is Others ==> seg.speaker != Some(i32::MAX)
}

/// Who speaks a line can be written down: by a custom name, or by a number.
pub open spec fn nameable(seg: Segment, names: Map<i32, String>) -> bool {
    numbered(seg) || names.contains_key(i32::MAX)
}

/// The name of a diarized speaker without a custom name.
pub open spec fn nameless(idx: int) -> Seq<char> {
    "Speaker "@ + signed(idx + 1)
}

fn write_nameless(idx: i32) -> (r: String)
    requires
        idx < i32::MAX,
    ensures
        r@ == nameless(idx as int),
{
    let mut r = "Speaker ".to_string();
    r.push_str(&write_i64((idx + 1) as i64));
    r
}

/// Who speaks a line, where no custom names are known.
pub fn quick_speaker_label(seg: &Segment) -> (r: String)
    requires
        numbered(*seg),
    ensures
        r@ == (match (seg.source, seg.speaker) {
            (Source::Others, Some(idx)) => nameless(idx as int),
            _ => source_name(seg.source),
        }),
{
    match (seg.source, seg.speaker) {
        (Source::Others, Some(idx)) => write_nameless(idx),
        _ => source_label(seg.source).to_string(),
    }
}

/// Who speaks a line: the custom name of a diarized speaker, else a number; the
/// channel where there is no speaker.
pub open spec fn speaker_of(seg: Segment, names: Map<i32, String>) -> Seq<char> {
    match (seg.source, seg.speaker) {
        (Source::Others, Some(idx)) => if names.contains_key(idx) {
            names[idx]@
        } else {
            nameless(idx as int)
        },
        _ => source_name(seg.source),
    }
}

/// Who speaks a line.
pub fn speaker_label(seg: &Segment, names: &HashMap<i32, String>) -> (r: String)
    requires
        nameable(*seg, names@),
    ensures
        r@ == speaker_of(*seg, names@),
{
    broadcast use vstd::std_specs::hash::group_hash_axioms;

    match (seg.source, seg.speaker) {
        (Source::Others, Some(idx)) => match names.get(&idx) {
            Some(n) => n.clone(),
            None => write_nameless(idx),
        },
        _ => source_label(seg.source).to_string(),
    }
}

/// The speaker index of a "spk-N" key.
pub open spec fn keyed_speaker(key: Seq<char>) -> Option<int> {
    if begins(key, "spk-"@) {
        spelled(key.skip(4), i32::MIN as int, i32::MAX as int)
    } else {
        None
    }
}

/// The speaker index of a "spk-N" key.
pub fn speaker_key(key: &str) -> (r: Option<i32>)
    ensures
        match r {
            Some(n) => keyed_speaker(key@) == Some(n as int),
            None => keyed_speaker(key@) is None,
        },
{
    proof {
        reveal_strlit("spk-");
    }
    match after_prefix(key, "spk-") {
        Some(rest) => read_i32(&rest),
        None => None,
    }
}

/// The display name of an analytics row; `me` says what the user is called.
pub open spec fn row_name(key: Seq<char>, me: Seq<char>, names: Map<i32, String>) -> Seq<char> {
    if key == "me"@ {
        me
    } else if key == "others"@ {
        "Others"@
    } else {
        match keyed_speaker(key) {
            Some(n) => if names.contains_key(n as i32) {
                names[n as i32]@
            } else {
                nameless(n)
            },
            None => key,
        }
    }
}

/// The name of an analytics row can be written down: it has a custom name, or a
/// number.
pub open spec fn row_nameable(key: Seq<char>, names: Map<i32, String>) -> bool {
    keyed_speaker(key) != Some(i32::MAX as int) || names.contains_key(i32::MAX)
}

/// The display name of an analytics row.
pub fn stats_label(key: &str, me: &str, names: &HashMap<i32, String>) -> (r: String)
    requires
        row_nameable(key@, names@),
    ensures
        r@ == row_name(key@, me@, names@),
{
    broadcast use vstd::std_specs::hash::group_hash_axioms;

    if same(key, "me") {
        return me.to_string();
    }
    if same(key, "others") {
        return "Others".to_string();
    }
    match speaker_key(key) {
        Some(n) => match names.get(&n) {
            Some(x) => x.clone(),
            None => write_nameless(n),
        },
        None => key.to_string(),
    }
}

/// The style class of an analytics row.
pub open spec fn row_class(key: Seq<char>, me: Option<i32>) -> Seq<char> {
    if key == "me"@ {
        "spk-me"@
    } else {
        match keyed_speaker(key) {
            Some(n) => if me == Some(n as i32) {
                "spk-me"@
            } else {
                "spk-"@ + signed(n)
            },
            None => "spk-others"@,
        }
    }
}

/// The style class of an analytics row.
pub fn stats_class(key: &str, me_speaker: Option<i32>) -> (r: String)
    ensures
        r@ == row_class(key@, me_speaker),
{
    if same(key, "me") {
        return "spk-me".to_string();
    }
    match speaker_key(key) {
        Some(n) => {
            let mine = match me_speaker {
                Some(m) => m == n,
                None => false,
            };
            if mine {
                "spk-me".to_string()
            } else {
                let mut r = "spk-".to_string();
                r.push_str(&write_i64(n as i64));
                r
            }
        },
        None => "spk-others".to_string(),
    }
}

// ---------------------------------------------------------------------------
// What the texts say
// ---------------------------------------------------------------------------

/// A duration says its hours, minutes and seconds, which make up the whole. Parts of a
/// second are dropped.
pub proof fn clocks_say_the_time(h: nat, m: nat, s: nat, rest: nat)
    requires
        m < 60,
        s < 60,
        rest < 1000,
    ensures
        h > 0 ==> clock((h * 3600 + m * 60 + s) * 1000 + rest) == decimal(h) + ":"@ + two_digits(m)
            + ":"@ + two_digits(s),
        h == 0 ==> clock((m * 60 + s) * 1000 + rest) == decimal(m) + ":"@ + two_digits(s),
        stamp(((h * 60 + m) * 60 + s) * 1000 + rest) == two_digits(h * 60 + m) + ":"@ + two_digits(
            s,
        ),
        h > 0 ==> span(h * 3600 + m * 60 + s) == decimal(h) + "h"@ + two_digits(m) + "m"@,
        h == 0 ==> span(m * 60 + s) == decimal(m) + ":"@ + two_digits(s),
{
    let n = h * 3600 + m * 60 + s;
    assert((n * 1000 + rest) / 1000 == n);
    assert(n / 3600 == h && n % 3600 == m * 60 + s && n % 60 == s && n / 60 == h * 60 + m)
        by (nonlinear_arith)
        requires
            n == h * 3600 + m * 60 + s,
            m < 60,
            s < 60,
    ;
    assert((m * 60 + s) / 60 == m && (m * 60 + s) % 60 == s);
    assert((h * 60 + m) * 60 + s == n) by (nonlinear_arith)
        requires
            n == h * 3600 + m * 60 + s,
    ;
    if h > 0 {
        assert(n >= 3600) by (nonlinear_arith)
            requires
                n == h * 3600 + m * 60 + s,
                h > 0,
        ;
    }
}

/// How long ago something was is said in the largest unit that fits, in whole units:
/// days, hours, minutes. Less than a minute, and the future, is just now.
pub proof fn ages_are_in_whole_units(ms: nat, n: nat, rest: nat)
    ensures
        rest < 60_000 ==> ago(ms, ms + rest) == "just now"@,
        ago(ms + rest, ms) == "just now"@,
        0 < n < 60 && rest < 60_000 ==> ago(ms, ms + n * 60_000 + rest) == decimal(n) + "m ago"@,
        0 < n < 24 && rest < 3_600_000 ==> ago(ms, ms + n * 3_600_000 + rest) == decimal(n)
            + "h ago"@,
        0 < n && rest < 86_400_000 ==> ago(ms, ms + n * 86_400_000 + rest) == decimal(n)
            + "d ago"@,
{
    if 0 < n && rest < 86_400_000 {
        let secs: nat = ((n * 86_400_000 + rest) / 1000) as nat;
        assert(secs / 86_400 == n && secs >= 86_400) by (nonlinear_arith)
            requires
                secs == (n * 86_400_000 + rest) / 1000,
                rest < 86_400_000,
                n > 0,
        ;
    }
    if 0 < n < 24 && rest < 3_600_000 {
        let secs: nat = ((n * 3_600_000 + rest) / 1000) as nat;
        assert(secs / 3600 == n && 3600 <= secs < 86_400);
    }
    if 0 < n < 60 && rest < 60_000 {
        let secs: nat = ((n * 60_000 + rest) / 1000) as nat;
        assert(secs / 60 == n && 60 <= secs < 3600);
    }
}

/// A session is listed under the day it began: today, yesterday, in the last seven
/// days, in the last thirty, or before.
pub proof fn groups_are_by_days_back(days: int)
    ensures
        group_of(days) is Today <==> days <= 0,
        group_of(days) is Yesterday <==> days == 1,
        group_of(days) is ThisWeek <==> 2 <= days <= 6,
        group_of(days) is ThisMonth <==> 7 <= days <= 29,
        group_of(days) is Older <==> days >= 30,
{
}

/// A session has its title as it was written; only a blank or missing one is replaced.
/// Its length is known once it has ended, in whole seconds, and is never negative.
pub proof fn sessions_show_title_and_length(s: Session, secs: nat, rest: nat)
    ensures
        s.title matches Some(t) && !crate::text::is_blank(t@) ==> title_of(s) == s.title->0@,
        (s.title is None || crate::text::is_blank(s.title->0@)) ==> title_of(s) == "Recording"@,
        seconds_of(s) is Some <==> s.ended_at is Some,
        s.ended_at matches Some(e) && e == s.started_at + secs * 1000 + rest && rest < 1000
            ==> seconds_of(s) == Some(secs),
        s.ended_at matches Some(e) && e < s.started_at ==> seconds_of(s) == Some(0nat),
{
}

/// The second line of a session is its date, how long ago it was, and its length where
/// it has one.
pub proof fn meta_lines_add_the_length(s: Session, date: Seq<char>, now: nat)
    ensures
        begins(meta_of(s, date, now), date + " · "@ + ago(s.started_at as nat, now)),
        seconds_of(s) matches Some(n) && n > 0 ==> meta_of(s, date, now) == date + " · "@ + ago(
            s.started_at as nat,
            now,
        ) + " · "@ + span(seconds_of(s)->0),
        (seconds_of(s) is None || seconds_of(s) == Some(0nat)) ==> meta_of(s, date, now) == date
            + " · "@ + ago(s.started_at as nat, now),
{
    let head = date + " · "@ + ago(s.started_at as nat, now);
    let m = meta_of(s, date, now);
    assert(m.subrange(0, head.len() as int) =~= head);
}

/// Each capture mode but the one for the other channel alone records a channel.
pub proof fn modes_record_their_channels(mode: Seq<char>)
    ensures
        captured("mic"@) == (true, false),
        captured("system"@) == (false, true),
        mode != "mic"@ && mode != "system"@ ==> captured(mode) == (true, true),
{
    reveal_strlit("system");
    reveal_strlit("mic");
    assert("system"@.len() != "mic"@.len());
}

/// The user's lines say "Me", whatever speaker they carry. A line of the others has the
/// custom name of its speaker, else the number of the speaker counted from one, and the
/// channel's name where no speaker is known. Names of other speakers do not matter.
pub proof fn lines_are_named_by_their_speaker(
    seg: Segment,
    names: Map<i32, String>,
    other: i32,
    name: String,
)
    ensures
        seg.source is Me ==> speaker_of(seg, names) == "Me"@,
        seg.source is Others && seg.speaker is None ==> speaker_of(seg, names) == "Others"@,
        seg.source is Others && seg.speaker is Some && !names.contains_key(seg.speaker->0)
            ==> speaker_of(seg, names) == "Speaker "@ + signed(seg.speaker->0 + 1),
        seg.source is Others && seg.speaker == Some(other) ==> speaker_of(
            seg,
            names.insert(other, name),
        ) == name@,
        seg.speaker != Some(other) ==> speaker_of(seg, names.insert(other, name)) == speaker_of(
            seg,
            names,
        ),
{
}

/// A "spk-N" key names speaker N, and other keys name none.
pub proof fn keys_name_speakers(n: i32, key: Seq<char>)
    ensures
        keyed_speaker("spk-"@ + signed(n as int)) == Some(n as int),
        !begins(key, "spk-"@) ==> keyed_speaker(key) is None,
        keyed_speaker("me"@) is None && keyed_speaker("others"@) is None,
{
    reveal_strlit("spk-");
    reveal_strlit("me");
    reveal_strlit("others");
    let k = "spk-"@ + signed(n as int);
    assert(k.subrange(0, 4) =~= "spk-"@);
    assert(k.skip(4) =~= signed(n as int));
    crate::number::written_number_reads_back(n as int, i32::MIN as int, i32::MAX as int);
    let o = "others"@;
    assert(o.subrange(0, 4)[0] == 'o');
    assert("spk-"@[0] == 's');
}

/// A row of the analytics is named as its lines are: the user as asked, a speaker by
/// the custom name or number, and anything else by its key.
pub proof fn rows_are_named_like_lines(
    n: i32,
    me: Seq<char>,
    names: Map<i32, String>,
    key: Seq<char>,
    seg: Segment,
)
    requires
        seg.source is Others,
        seg.speaker == Some(n),
    ensures
        row_name("me"@, me, names) == me,
        row_name("others"@, me, names) == "Others"@,
        row_name("spk-"@ + signed(n as int), me, names) == speaker_of(seg, names),
        key != "me"@ && key != "others"@ && keyed_speaker(key) is None ==> row_name(key, me, names)
            == key,
{
    keys_name_speakers(n, key);
    reveal_strlit("me");
    reveal_strlit("others");
    assert("me"@.len() != "others"@.len());
}

/// The user's rows and lines look like the user's: by the channel, or by the speaker
/// that is the user's own. Other speakers keep their own look.
pub proof fn own_lines_look_like_mine(seg: Segment, n: i32, me: Option<i32>)
    ensures
        is_mine(seg, me) ==> seg.speaker is Some && me == seg.speaker,
        seg.source is Others && seg.speaker == Some(n) ==> (is_mine(seg, me) <==> me == Some(n)),
        me is None ==> !is_mine(seg, me),
        row_class("me"@, me) == "spk-me"@,
        row_class("others"@, me) == "spk-others"@,
        me == Some(n) ==> row_class("spk-"@ + signed(n as int), me) == "spk-me"@,
        me != Some(n) ==> row_class("spk-"@ + signed(n as int), me) == "spk-"@ + signed(n as int),
        seg.source is Me ==> class_of_line(seg) == "me"@,
        seg.source is Others && seg.speaker is None ==> class_of_line(seg) == "others"@,
        seg.source is Others && seg.speaker == Some(n) && n >= 0 ==> class_of_line(seg)
            == "others spk-"@ + decimal((n as nat) % 8),
{
    keys_name_speakers(n, Seq::empty());
    reveal_strlit("me");
    reveal_strlit("others");
    reveal_strlit("spk-");
    assert("me"@.len() != "others"@.len());
    let k = "spk-"@ + signed(n as int);
    crate::number::decimal_has_digits_only(0);
    if n >= 0 {
        crate::number::decimal_has_digits_only(n as nat);
    } else {
        crate::number::decimal_has_digits_only((-n) as nat);
    }
    assert(k.len() > 4);
    assert("me"@.len() == 2);
}

/// What is left of an estimate is counted down and never below zero; other jobs say
/// what they do.
pub proof fn estimates_count_down(est: u64, elapsed: u64, more: u64)
    requires
        elapsed + more <= u64::MAX,
    ensures
        elapsed <= est ==> detail_of_job("diarize"@, Some(est), elapsed) == "~"@ + span(
            (est - elapsed) as nat,
        ) + " left (estimate)"@,
        detail_of_job("diarize"@, Some(est), (elapsed + more) as u64) == detail_of_job(
            "diarize"@,
            Some(
                if est >= elapsed {
                    (est - elapsed) as u64
                } else {
                    0
                },
            ),
            more,
        ),
        detail_of_job("diarize"@, None, elapsed) == "processing audio…"@,
{
}

/// A status shows what it carries: the percentage of a download, the words of an error.
pub proof fn statuses_show_what_they_carry(p: u8, e: String, st: Status)
    ensures
        status_text(Status::Downloading(p)) == "Downloading model… "@ + decimal(p as nat) + "%"@,
        begins(status_text(Status::Error(e)), "Error: "@),
        crate::pattern::finishes(status_text(Status::Error(e)), e@),
        status_text(st) == "Recording"@ && !(st is Error) && !(st is Downloading) ==> st is Recording,
        st is Recording ==> status_text(st) == "Recording"@,
        st is Idle ==> status_text(st) == "Idle"@,
        st is PreparingModel ==> status_text(st) == "Preparing model…"@,
{
    crate::pattern::texts_stand_where_their_characters_do("Error: "@, e@, 0);
    reveal_strlit("Idle");
    reveal_strlit("Recording");
    reveal_strlit("Preparing model…");
    assert("Idle"@.len() == 4 && "Recording"@.len() == 9 && "Preparing model…"@.len() == 16);
}

/// The channels differ in their names and in their looks, and a speaker without a name is
/// counted from one.
pub proof fn channels_differ(idx: int, more: int, a: Source, b: Source)
    ensures
        source_name(a) == source_name(b) <==> a == b,
        class_of_source(a) == class_of_source(b) <==> a == b,
        nameless(0) == "Speaker "@ + signed(1),
        idx >= 0 && more >= 0 && nameless(idx) == nameless(more) ==> idx == more,
{
    reveal_strlit("Me");
    reveal_strlit("Others");
    reveal_strlit("me");
    reveal_strlit("others");
    assert("Me"@.len() == 2 && "Others"@.len() == 6 && "me"@.len() == 2 && "others"@.len() == 6);
    if idx >= 0 && more >= 0 && nameless(idx) == nameless(more) {
        let n = "Speaker "@.len() as int;
        assert(nameless(idx).skip(n) =~= decimal((idx + 1) as nat));
        assert(nameless(more).skip(n) =~= decimal((more + 1) as nat));
        crate::number::decimal_is_injective((idx + 1) as nat, (more + 1) as nat);
    }
}

/// Each group of days has a heading of its own.
pub proof fn groups_have_their_own_heading(a: DateGroup, b: DateGroup)
    ensures
        a.heading() == b.heading() <==> a == b,
{
    reveal_strlit("Today");
    reveal_strlit("Yesterday");
    reveal_strlit("This week");
    reveal_strlit("This month");
    reveal_strlit("Older");
    assert("Today"@[0] == 'T' && "Today"@[1] == 'o' && "Yesterday"@[0] == 'Y' && "Older"@[0] == 'O');
    assert("This week"@[5] == 'w' && "This month"@[5] == 'm');
    assert("This week"@[1] == 'h' && "This month"@[1] == 'h');
}

/// A kind of job that has an icon shows it; every other kind shows the sparkles.
pub proof fn jobs_show_the_icon_of_their_kind(kind: Seq<char>)
    ensures
        icon_of_job(kind) == "archive"@ <==> kind == "compress"@,
        icon_of_job(kind) == "overview"@ <==> kind == "overview"@,
        icon_of_job(kind) == "users"@ <==> kind == "diarize"@,
        icon_of_job(kind) == "refresh"@ <==> kind == "retranscribe"@,
        icon_of_job(kind) == "sparkles"@ <==> kind != "compress"@ && kind != "overview"@ && kind
            != "diarize"@ && kind != "retranscribe"@,
{
    reveal_strlit("archive");
    reveal_strlit("overview");
    reveal_strlit("users");
    reveal_strlit("refresh");
    reveal_strlit("sparkles");
    reveal_strlit("compress");
    reveal_strlit("diarize");
    reveal_strlit("retranscribe");
    assert("archive"@[0] == 'a' && "overview"@[0] == 'o' && "users"@[0] == 'u');
    assert("refresh"@[0] == 'r' && "sparkles"@[0] == 's');
    assert("compress"@[0] == 'c' && "diarize"@[0] == 'd' && "retranscribe"@[0] == 'r');
}

} // verus!
