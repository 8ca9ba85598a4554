//! The toolbar above a saved session, the transcript lines, and the analytics
//! card.

use std::collections::HashMap;

use crate::labels::{fmt_dur, fmt_ms, fmt_ts, session_secs, speaker_label, stats_label};
#[allow(unused_imports)]
use crate::labels::{
    clock, nameable, row_name, row_nameable, seconds_of, span, speaker_of, stamp,
};
use crate::model::{
    AudioFiles, DbCmd, Segment, Session, SessionStats, Source, SpeakerStats, SummCmd,
};
#[allow(unused_imports)]
use crate::number::{decimal, read_u32, signed, spelled, two_digits, write_i64, write_two, write_u64};
#[allow(unused_imports)]
use crate::pattern::{join, joined, views};
#[allow(unused_imports)]
use crate::text::{same, trim, trimmed};
use crate::ui::{Outgoing, UiState};
#[allow(unused_imports)]
use crate::ui::{SessionPaneView, UiView};
use vstd::prelude::*;

verus! {

// ---------------------------------------------------------------------------
// What the toolbar offers
// ---------------------------------------------------------------------------

/// Some kept audio exists.
pub open spec fn any_audio(a: AudioFiles) -> bool {
    a.me is Some || a.others is Some || a.speakers@.dom().len() > 0
}

/// Whether some kept audio exists.
pub fn has_any_audio(a: &AudioFiles) -> (r: bool)
    ensures
        r == any_audio(*a),
{
    broadcast use vstd::std_specs::hash::group_hash_axioms;

    a.me.is_some() || a.others.is_some() || a.speakers.len() > 0
}

/// The state of the actions on a saved session.
#[derive(Debug, Clone, Copy)]
pub struct ToolbarState {
    pub busy: bool,
    pub can_retranscribe: bool,
    pub can_diarize: bool,
    pub can_summarize: bool,
    pub can_compress: bool,
    pub has_summary: bool,
    pub has_compressed: bool,
    pub has_audio: bool,
}

/// The notice for a job of the language model.
pub open spec fn llm_notice(backend: Seq<char>, external: Seq<char>, local: Seq<char>) -> Seq<
    char,
> {
    if backend == "external"@ {
        external
    } else {
        local
    }
}

/// The estimated length of a diarization in seconds: a sixth of the meeting, at
/// least a quarter of a minute.
pub open spec fn diarize_estimate(secs: nat) -> nat {
    if secs / 6 > 15 {
        secs / 6
    } else {
        15
    }
}

/// The length of the first session with this id, if it has ended.
pub open spec fn length_of(sessions: Seq<Session>, id: Seq<char>) -> Option<nat>
    decreases sessions.len(),
{
    if sessions.len() == 0 {
        None
    } else if sessions[0].id@ == id {
        seconds_of(sessions[0])
    } else {
        length_of(sessions.skip(1), id)
    }
}

fn find_length(sessions: &Vec<Session>, id: &String) -> (r: Option<u64>)
    ensures
        match r {
            Some(n) => length_of(sessions@, id@) == Some(n as nat),
            None => length_of(sessions@, id@) is None,
        },
{
    let mut i: usize = 0;
    assert(sessions@.skip(0) =~= sessions@);
    while i < sessions.len()
        invariant
            i <= sessions@.len(),
            length_of(sessions@, id@) == length_of(sessions@.skip(i as int), id@),
        decreases sessions@.len() - i,
    {
        assert(sessions@.skip(i as int).skip(1) =~= sessions@.skip(i + 1));
        if sessions[i].id == *id {
            return session_secs(&sessions[i]);
        }
        i += 1;
    }
    None
}

/// The speaker count that was typed; anything that is no number means automatic.
pub open spec fn typed_count(s: Seq<char>) -> int {
    match spelled(trimmed(s), 0, u32::MAX as int) {
        Some(n) => n,
        None => 0,
    }
}

impl UiState {
    /// The state of the actions on the session on screen.
    pub fn toolbar(&self) -> (r: ToolbarState)
        ensures
            ({
                let p = self.pane;
                let audio = any_audio(p.audio_files);
                &&& r.busy == (p.summarizing || p.compressing || p.diarizing || p.retranscribing)
                &&& r.can_retranscribe == (!p.retranscribing && audio)
                &&& r.can_diarize == (!p.diarizing && p.audio_files.others is Some)
                &&& r.can_summarize == !p.summarizing
                &&& r.can_compress == !p.compressing
                &&& r.has_summary == p.summary is Some
                &&& r.has_compressed == p.compressed is Some
                &&& r.has_audio == audio
            }),
    {
        let p = &self.pane;
        let audio = has_any_audio(&p.audio_files);
        ToolbarState {
            busy: p.summarizing || p.compressing || p.diarizing || p.retranscribing,
            can_retranscribe: !p.retranscribing && audio,
            can_diarize: !p.diarizing && p.audio_files.others.is_some(),
            can_summarize: !p.summarizing,
            can_compress: !p.compressing,
            has_summary: p.summary.is_some(),
            has_compressed: p.compressed.is_some(),
            has_audio: audio,
        }
    }

    /// Starts a diarization with the typed speaker count, unless one runs.
    pub fn identify_speakers(&mut self, id: String) -> (out: Vec<Outgoing>)
        ensures
            old(self).pane.diarizing ==> final(self)@ == old(self)@ && out@.len() == 0,
            !old(self).pane.diarizing ==> {
                &&& final(self)@ == (UiView {
                    notice: Some(
                        "Identifying speakers… (first run downloads the speaker model)"@,
                    ),
                    pane: SessionPaneView {
                        diarizing: true,
                        diarize_est_secs: match length_of(old(self).shelf.sessions@, id@) {
                            Some(n) => Some(diarize_estimate(n) as u64),
                            None => None,
                        },
                        ..old(self)@.pane
                    },
                    ..old(self)@
                })
                &&& out@ == seq![
                    Outgoing::Db(
                        DbCmd::Diarize {
                            id,
                            num_speakers: typed_count(old(self).pane.diar_speakers@) as u32,
                        },
                    ),
                ]
            },
    {
        let mut out: Vec<Outgoing> = Vec::new();
        if self.pane.diarizing {
            return out;
        }
        let n: u32 = match read_u32(&trim(&self.pane.diar_speakers)) {
            Some(n) => n,
            None => 0,
        };
        let est: Option<u64> = match find_length(&self.shelf.sessions, &id) {
            Some(secs) => Some(
                if secs / 6 > 15 {
                    secs / 6
                } else {
                    15
                },
            ),
            None => None,
        };
        self.pane.diarizing = true;
        self.pane.diarize_est_secs = est;
        self.notice = Some(
            "Identifying speakers… (first run downloads the speaker model)".to_string(),
        );
        out.push(Outgoing::Db(DbCmd::Diarize { id, num_speakers: n }));
        out
    }

    /// Starts a summary, unless one is being written.
    pub fn summarize(&mut self, id: String) -> (out: Vec<Outgoing>)
        ensures
            old(self).pane.summarizing ==> final(self)@ == old(self)@ && out@.len() == 0,
            !old(self).pane.summarizing ==> {
                &&& final(self)@ == (UiView {
                    notice: Some(
                        llm_notice(
                            old(self).setup.settings.llm_backend@,
                            "Summarizing via the external LLM server…"@,
                            "Summarizing… (first run downloads the model)"@,
                        ),
                    ),
                    pane: SessionPaneView { summarizing: true, ..old(self)@.pane },
                    ..old(self)@
                })
                &&& out@ == seq![Outgoing::Summ(SummCmd::Summarize(id))]
            },
    {
        let mut out: Vec<Outgoing> = Vec::new();
        if self.pane.summarizing {
            return out;
        }
        self.pane.summarizing = true;
        let text = if same(&self.setup.settings.llm_backend, "external") {
            "Summarizing via the external LLM server…".to_string()
        } else {
            "Summarizing… (first run downloads the model)".to_string()
        };
        self.notice = Some(text);
        out.push(Outgoing::Summ(SummCmd::Summarize(id)));
        out
    }

    /// Starts a compression, unless one is being written.
    pub fn compress(&mut self, id: String) -> (out: Vec<Outgoing>)
        ensures
            old(self).pane.compressing ==> final(self)@ == old(self)@ && out@.len() == 0,
            !old(self).pane.compressing ==> {
                &&& final(self)@ == (UiView {
                    notice: Some(
                        llm_notice(
                            old(self).setup.settings.llm_backend@,
                            "Compressing via the external LLM server…"@,
                            "Compressing… (first run downloads the model)"@,
                        ),
                    ),
                    pane: SessionPaneView { compressing: true, ..old(self)@.pane },
                    ..old(self)@
                })
                &&& out@ == seq![Outgoing::Summ(SummCmd::Compress(id))]
            },
    {
        let mut out: Vec<Outgoing> = Vec::new();
        if self.pane.compressing {
            return out;
        }
        self.pane.compressing = true;
        let text = if same(&self.setup.settings.llm_backend, "external") {
            "Compressing via the external LLM server…".to_string()
        } else {
            "Compressing… (first run downloads the model)".to_string()
        };
        self.notice = Some(text);
        out.push(Outgoing::Summ(SummCmd::Compress(id)));
        out
    }

    /// Folds the session into the overview document.
    pub fn fold_into_overview(&mut self, id: String) -> (out: Vec<Outgoing>)
        ensures
            final(self)@ == (UiView {
                notice: Some("Updating the Overview from this meeting…"@),
                ..old(self)@
            }),
            out@ == seq![Outgoing::Summ(SummCmd::UpdateOverviewDoc { session: Some(id) })],
    {
        self.notice = Some("Updating the Overview from this meeting…".to_string());
        let mut out: Vec<Outgoing> = Vec::new();
        out.push(Outgoing::Summ(SummCmd::UpdateOverviewDoc { session: Some(id) }));
        out
    }
}

// ---------------------------------------------------------------------------
// Transcript lines
// ---------------------------------------------------------------------------

/// One line of a copied transcript.
pub open spec fn copied_line(seg: Segment, names: Map<i32, String>) -> Seq<char> {
    "["@ + stamp(seg.t_start_ms as nat) + " "@ + speaker_of(seg, names) + "] "@ + seg.text@
}

/// The lines of a copied transcript.
pub open spec fn copied_lines(segs: Seq<Segment>, names: Map<i32, String>) -> Seq<Seq<char>> {
    segs.map_values(|s: Segment| copied_line(s, names))
}

/// The transcript as plain text, one line each with time and speaker.
pub fn transcript_text(segs: &Vec<Segment>, names: &HashMap<i32, String>) -> (r: String)
    requires
        forall|i: int| 0 <= i < segs@.len() ==> nameable(#[trigger] segs@[i], names@),
    ensures
        r@ == joined(copied_lines(segs@, names@), "\n"@),
{
    let mut lines: Vec<String> = Vec::new();
    let mut i: usize = 0;
    while i < segs.len()
        invariant
            i <= segs@.len(),
            lines@.len() == i,
            forall|k: int| 0 <= k < segs@.len() ==> nameable(#[trigger] segs@[k], names@),
            forall|k: int|
                0 <= k < i ==> (#[trigger] lines@[k])@ == copied_line(segs@[k], names@),
        decreases segs@.len() - i,
    {
        let mut l = "[".to_string();
        l.push_str(&fmt_ts(segs[i].t_start_ms));
        l.push_str(" ");
        l.push_str(&speaker_label(&segs[i], names));
        l.push_str("] ");
        l.push_str(&segs[i].text);
        lines.push(l);
        i += 1;
    }
    assert(views(lines@) =~= copied_lines(segs@, names@));
    join(&lines, "\n")
}

/// The file that a line is replayed from: the microphone track for the user's
/// lines; for another speaker their own track, else the track of all others.
pub open spec fn audio_of(seg: Segment, a: AudioFiles) -> Option<String> {
    match (seg.source, seg.speaker) {
        (Source::Me, _) => a.me,
        (Source::Others, Some(idx)) => if a.speakers@.contains_key(idx) {
            Some(a.speakers@[idx])
        } else {
            a.others
        },
        (Source::Others, None) => a.others,
    }
}

/// The file that a line is replayed from.
pub fn line_audio(seg: &Segment, a: &AudioFiles) -> (r: Option<String>)
    ensures
        r == audio_of(*seg, *a),
{
    broadcast use vstd::std_specs::hash::group_hash_axioms;

    match (seg.source, seg.speaker) {
        (Source::Me, _) => crate::text::copy_opt(&a.me),
        (Source::Others, Some(idx)) => match a.speakers.get(&idx) {
            Some(p) => Some(p.clone()),
            None => crate::text::copy_opt(&a.others),
        },
        (Source::Others, None) => crate::text::copy_opt(&a.others),
    }
}

/// What the replay button of a line does: nothing without an id or a file; a
/// line that plays is stopped, another is played.
pub open spec fn replay_of(seg: Segment, a: AudioFiles, playing: Option<i64>) -> Option<
    Option<(String, i64, u64, u64)>,
> {
    match (seg.id, audio_of(seg, a)) {
        (Some(id), Some(wav)) => if playing == Some(id) {
            Some(None)
        } else {
            Some(Some((wav, id, seg.t_start_ms, seg.t_end_ms)))
        },
        _ => None,
    }
}

/// What the replay button of a line does; `None` means that it has none.
pub fn replay_button(seg: &Segment, a: &AudioFiles, playing: Option<i64>) -> (r: Option<
    Option<(String, i64, u64, u64)>,
>)
    ensures
        r == replay_of(*seg, *a, playing),
{
    match (seg.id, line_audio(seg, a)) {
        (Some(id), Some(wav)) => {
            let on = match playing {
                Some(p) => p == id,
                None => false,
            };
            if on {
                Some(None)
            } else {
                Some(Some((wav, id, seg.t_start_ms, seg.t_end_ms)))
            }
        },
        _ => None,
    }
}

fn contains_id(ids: &Vec<i64>, x: i64) -> (r: bool)
    ensures
        r == ids@.contains(x),
{
    let mut i: usize = 0;
    while i < ids.len()
        invariant
            i <= ids@.len(),
            forall|k: int| 0 <= k < i ==> #[trigger] ids@[k] != x,
        decreases ids@.len() - i,
    {
        if ids[i] == x {
            return true;
        }
        i += 1;
    }
    false
}

/// The highlight class of a line: the line jumped to, another find hit, or none.
pub fn hit_class(id: Option<i64>, highlight: Option<i64>, hits: &Vec<i64>) -> (r: &'static str)
    ensures
        r@ == (match id {
            Some(x) => if highlight == Some(x) {
                " hit"@
            } else if hits@.contains(x) {
                " find-hit"@
            } else {
                ""@
            },
            None => ""@,
        }),
{
    match id {
        Some(x) => {
            let jumped = match highlight {
                Some(h) => h == x,
                None => false,
            };
            if jumped {
                return " hit";
            }
            if contains_id(hits, x) {
                return " find-hit";
            }
            ""
        },
        None => "",
    }
}

// ---------------------------------------------------------------------------
// Analytics card
// ---------------------------------------------------------------------------

/// The share of speech in percent, rounded down.
pub open spec fn speech_share(speech: nat, meeting: nat) -> nat {
    if meeting == 0 {
        0
    } else {
        (if speech < meeting {
            speech
        } else {
            meeting
        }) * 100 / meeting
    }
}

/// The share of speech in percent, rounded down; zero for an empty meeting.
pub fn speech_pct(stats: &SessionStats) -> (r: u64)
    requires
        stats.speech_ms * 100 <= u64::MAX || stats.meeting_ms * 100 <= u64::MAX,
    ensures
        r == speech_share(stats.speech_ms as nat, stats.meeting_ms as nat),
        r <= 100,
{
    if stats.meeting_ms == 0 {
        return 0;
    }
    let s: u64 = if stats.speech_ms < stats.meeting_ms {
        stats.speech_ms
    } else {
        stats.meeting_ms
    };
    proof {
        let a = s as int * 100;
        let b = stats.meeting_ms as int;
        assert(a / b <= 100) by (nonlinear_arith)
            requires
                a <= b * 100,
                b > 0,
        ;
    }
    s * 100 / stats.meeting_ms
}

/// The head of the analytics card: the length and the share of speech.
pub fn stats_head(stats: &SessionStats) -> (r: String)
    requires
        stats.speech_ms * 100 <= u64::MAX || stats.meeting_ms * 100 <= u64::MAX,
    ensures
        r@ == span(stats.meeting_ms as nat / 1000) + " · "@ + decimal(
            speech_share(stats.speech_ms as nat, stats.meeting_ms as nat),
        ) + "% speech"@,
{
    let mut r = fmt_dur(stats.meeting_ms / 1000);
    r.push_str(" · ");
    r.push_str(&write_u64(speech_pct(stats)));
    r.push_str("% speech");
    r
}

/// The details of a speaker on the analytics card.
pub open spec fn talk_details(s: SpeakerStats) -> Seq<char> {
    decimal(s.share_pct as nat) + "% · "@ + decimal(s.talk_ms as nat / 60_000) + ":"@ + two_digits(
        s.talk_ms as nat % 60_000 / 1000,
    ) + " · "@ + decimal(s.wpm as nat) + " wpm · "@ + decimal(s.questions as nat)
        + " Q · longest "@ + clock(s.longest_monologue_ms as nat) + " · "@ + decimal(
        s.interruptions_made as nat,
    ) + " interruptions"@
}

/// The details of a speaker on the analytics card.
pub fn talk_detail(s: &SpeakerStats) -> (r: String)
    ensures
        r@ == talk_details(*s),
{
    let mut r = write_u64(s.share_pct as u64);
    r.push_str("% · ");
    r.push_str(&write_u64(s.talk_ms / 60_000));
    r.push_str(":");
    r.push_str(&write_two(s.talk_ms % 60_000 / 1000));
    r.push_str(" · ");
    r.push_str(&write_u64(s.wpm as u64));
    r.push_str(" wpm · ");
    r.push_str(&write_u64(s.questions as u64));
    r.push_str(" Q · longest ");
    r.push_str(&fmt_ms(s.longest_monologue_ms));
    r.push_str(" · ");
    r.push_str(&write_u64(s.interruptions_made as u64));
    r.push_str(" interruptions");
    r
}

/// The most interesting fact of a meeting: a speaker with more than sixty
/// percent of the talk, else more than forty percent of silence, else nothing.
pub open spec fn insight(stats: SessionStats, names: Map<i32, String>) -> Seq<char> {
    if stats.speakers@.len() > 0 && stats.speakers@[0].dominant {
        row_name(stats.speakers@[0].key@, "You"@, names) + " spoke "@ + decimal(
            stats.speakers@[0].share_pct as nat,
        ) + "% of this meeting."@
    } else if stats.quiet {
        decimal(stats.silence_pct as nat) + "% of this meeting was silence."@
    } else {
        Seq::empty()
    }
}

/// The most interesting fact of a meeting, in one line; empty if nothing stands
/// out.
pub fn standout_insight(stats: &SessionStats, names: &HashMap<i32, String>) -> (r: String)
    requires
        stats.speakers@.len() > 0 && stats.speakers@[0].dominant ==> row_nameable(
            stats.speakers@[0].key@,
            names@,
        ),
    ensures
        r@ == insight(*stats, names@),
{
    if stats.speakers.len() > 0 && stats.speakers[0].dominant {
        let mut r = stats_label(&stats.speakers[0].key, "You", names);
        r.push_str(" spoke ");
        r.push_str(&write_u64(stats.speakers[0].share_pct as u64));
        r.push_str("% of this meeting.");
        return r;
    }
    if stats.quiet {
        let mut r = write_u64(stats.silence_pct as u64);
        r.push_str("% of this meeting was silence.");
        return r;
    }
    String::new()
}

// ---------------------------------------------------------------------------
// Speakers of a transcript
// ---------------------------------------------------------------------------

/// The speakers of a transcript.
pub open spec fn speakers_in(segs: Seq<Segment>) -> Set<i32> {
    Set::new(|i: i32| exists|k: int| 0 <= k < segs.len() && (#[trigger] segs[k]).speaker == Some(i))
}

/// Ascending, without repetition.
pub open spec fn rising(v: Seq<i32>) -> bool {
    forall|i: int, j: int| #![trigger v[i], v[j]] 0 <= i < j < v.len() ==> v[i] < v[j]
}

/// Adds a number to an ascending list.
pub fn insert_sorted(v: &mut Vec<i32>, x: i32)
    requires
        rising(old(v)@),
    ensures
        rising(final(v)@),
        forall|y: i32| #[trigger] final(v)@.contains(y) <==> old(v)@.contains(y) || y == x,
{
    let mut at: usize = 0;
    while at < v.len() && v[at] < x
        invariant
            at <= v@.len(),
            v@ == old(v)@,
            rising(v@),
            forall|k: int| 0 <= k < at ==> #[trigger] v@[k] < x,
        decreases v@.len() - at,
    {
        at += 1;
    }
    if at < v.len() && v[at] == x {
        assert(v@[at as int] == x);
        return;
    }
    let ghost w = v@;
    v.insert(at, x);
    proof {
        let t = v@;
        assert(forall|i: int|
            0 <= i < t.len() ==> #[trigger] t[i] == (if i < at {
                w[i]
            } else if i == at {
                x
            } else {
                w[i - 1]
            }));
        assert forall|y: i32| #[trigger] t.contains(y) <==> w.contains(y) || y == x by {
            if w.contains(y) {
                let k = choose|k: int| 0 <= k < w.len() && w[k] == y;
                if k < at {
                    assert(t[k] == y);
                } else {
                    assert(t[k + 1] == y);
                }
            }
            if y == x {
                assert(t[at as int] == y);
            }
            if t.contains(y) {
                let k = choose|k: int| 0 <= k < t.len() && t[k] == y;
                if k < at {
                    assert(w[k] == y);
                } else if k > at {
                    assert(w[k - 1] == y);
                }
            }
        }
        assert(rising(t)) by {
            assert forall|i: int, j: int|
                #![trigger t[i], t[j]]
                0 <= i < j < t.len() implies t[i] < t[j] by {
                if i < at && j > at {
                    assert(w[i] < w[j - 1]);
                } else if i > at {
                    assert(w[i - 1] < w[j - 1]);
                } else if j < at {
                    assert(w[i] < w[j]);
                } else if i == at {
                    assert(w[at as int] > x);
                    if j - 1 > at {
                        assert(w[at as int] < w[j - 1]);
                    }
                }
            }
        }
    }
}

/// The speakers of a transcript, ascending, each once.
pub fn speakers_of(segs: &Vec<Segment>) -> (r: Vec<i32>)
    ensures
        rising(r@),
        forall|x: i32| #[trigger] r@.contains(x) <==> speakers_in(segs@).contains(x),
{
    let mut r: Vec<i32> = Vec::new();
    let mut i: usize = 0;
    while i < segs.len()
        invariant
            i <= segs@.len(),
            rising(r@),
            forall|x: i32| #[trigger]
                r@.contains(x) <==> exists|k: int|
                    0 <= k < i && (#[trigger] segs@[k]).speaker == Some(x),
        decreases segs@.len() - i,
    {
        if let Some(x) = segs[i].speaker {
            insert_sorted(&mut r, x);
        }
        i += 1;
    }
    r
}

/// The style class of a chip in the legend of the speakers.
pub fn legend_class(speaker: i32, me: Option<i32>) -> (r: String)
    ensures
        r@ == (if me == Some(speaker) {
            "speaker-name spk-me"@
        } else {
            "speaker-name spk-"@ + signed(speaker as int)
        }),
{
    let mine = match me {
        Some(m) => m == speaker,
        None => false,
    };
    if mine {
        return "speaker-name spk-me".to_string();
    }
    let mut r = "speaker-name spk-".to_string();
    r.push_str(&write_i64(speaker as i64));
    r
}

// ---------------------------------------------------------------------------
// What the session view says
// ---------------------------------------------------------------------------

/// A copied transcript has one line for each line, in order: its time, its speaker and
/// its text.
pub proof fn copies_have_every_line(segs: Seq<Segment>, x: Segment, names: Map<i32, String>)
    ensures
        joined(copied_lines(seq![x], names), "\n"@) == "["@ + stamp(x.t_start_ms as nat) + " "@
            + speaker_of(x, names) + "] "@ + x.text@,
        segs.len() > 0 ==> joined(copied_lines(segs.push(x), names), "\n"@) == joined(
            copied_lines(segs, names),
            "\n"@,
        ) + "\n"@ + ("["@ + stamp(x.t_start_ms as nat) + " "@ + speaker_of(x, names) + "] "@
            + x.text@),
        copied_lines(Seq::empty(), names).len() == 0,
{
    let l = "["@ + stamp(x.t_start_ms as nat) + " "@ + speaker_of(x, names) + "] "@ + x.text@;
    assert(copied_lines(seq![x], names) =~= seq![l]);
    let all = copied_lines(segs.push(x), names);
    assert(all.drop_last() =~= copied_lines(segs, names));
    assert(all.last() == l);
}

/// A line is replayed from the track it was spoken on: the user's from the microphone,
/// a speaker's from the speaker's own track where there is one, and any other from the
/// system audio.
pub proof fn lines_are_replayed_from_their_track(seg: Segment, a: AudioFiles)
    ensures
        seg.source is Me ==> audio_of(seg, a) == a.me,
        seg.source is Others && seg.speaker is None ==> audio_of(seg, a) == a.others,
        seg.source is Others && seg.speaker is Some && a.speakers@.contains_key(seg.speaker->0)
            ==> audio_of(seg, a) == Some(a.speakers@[seg.speaker->0]),
        seg.source is Others && seg.speaker is Some && !a.speakers@.contains_key(seg.speaker->0)
            ==> audio_of(seg, a) == a.others,
{
}

/// A line can be replayed exactly if it is stored and its track is kept. The button
/// plays the time of the line, and stops it while it plays.
pub proof fn replays_play_the_line(seg: Segment, a: AudioFiles, playing: Option<i64>)
    ensures
        replay_of(seg, a, playing) is Some <==> seg.id is Some && audio_of(seg, a) is Some,
        replay_of(seg, a, playing) matches Some(x) ==> (x is None <==> playing == seg.id),
        replay_of(seg, a, playing) matches Some(Some(x)) ==> Some(x.0) == audio_of(seg, a) && Some(
            x.1,
        ) == seg.id && x.2 == seg.t_start_ms && x.3 == seg.t_end_ms,
{
}

/// The share of speech is that of a hundred: all speech is a hundred percent, none is
/// zero, and it is never more.
pub proof fn shares_are_of_a_hundred(speech: nat, meeting: nat)
    requires
        meeting > 0,
    ensures
        speech >= meeting ==> speech_share(speech, meeting) == 100,
        speech_share(0, meeting) == 0,
        speech <= meeting ==> speech_share(speech, meeting) * meeting <= speech * 100 < (speech_share(
            speech,
            meeting,
        ) + 1) * meeting,
        speech_share(speech, 0) == 0,
{
    assert(meeting * 100 / meeting == 100) by (nonlinear_arith)
        requires
            meeting > 0,
    ;
    assert(0int / (meeting as int) == 0) by (nonlinear_arith)
        requires
            meeting > 0,
    ;
    if speech <= meeting {
        let n = (speech * 100) as int;
        let d = meeting as int;
        vstd::arithmetic::div_mod::lemma_fundamental_div_mod(n, d);
        vstd::arithmetic::div_mod::lemma_mod_bound(n, d);
        let q = n / d;
        assert(q * d == d * q) by (nonlinear_arith);
        assert((q + 1) * d == d * q + d) by (nonlinear_arith);
    }
}

/// What stands out is that one speaker dominates, else that the meeting was quiet, else
/// nothing.
pub proof fn the_dominant_speaker_stands_out(stats: SessionStats, names: Map<i32, String>)
    ensures
        stats.speakers@.len() > 0 && stats.speakers@[0].dominant ==> insight(stats, names)
            == row_name(stats.speakers@[0].key@, "You"@, names) + " spoke "@ + decimal(
            stats.speakers@[0].share_pct as nat,
        ) + "% of this meeting."@,
        (stats.speakers@.len() == 0 || !stats.speakers@[0].dominant) && stats.quiet ==> insight(
            stats,
            names,
        ) == decimal(stats.silence_pct as nat) + "% of this meeting was silence."@,
        (stats.speakers@.len() == 0 || !stats.speakers@[0].dominant) && !stats.quiet ==> insight(
            stats,
            names,
        ).len() == 0,
{
}

/// The details of a speaker say each number: share, time, pace, questions, the longest
/// stretch and the interruptions.
pub proof fn details_say_every_number(s: SpeakerStats, m: nat, sec: nat, rest: nat)
    requires
        sec < 60,
        rest < 1000,
        s.talk_ms == (m * 60 + sec) * 1000 + rest,
    ensures
        talk_details(s) == decimal(s.share_pct as nat) + "% · "@ + (decimal(m) + ":"@ + two_digits(
            sec,
        )) + " · "@ + (decimal(s.wpm as nat) + " wpm · "@) + (decimal(s.questions as nat)
            + " Q · longest "@) + clock(s.longest_monologue_ms as nat) + " · "@ + (decimal(
            s.interruptions_made as nat,
        ) + " interruptions"@),
{
    let n = s.talk_ms as nat;
    assert(n / 60_000 == m && n % 60_000 / 1000 == sec) by (nonlinear_arith)
        requires
            n == (m * 60 + sec) * 1000 + rest,
            sec < 60,
            rest < 1000,
    ;
    assert(talk_details(s) =~= decimal(s.share_pct as nat) + "% · "@ + (decimal(m) + ":"@
        + two_digits(sec)) + " · "@ + (decimal(s.wpm as nat) + " wpm · "@) + (decimal(
        s.questions as nat,
    ) + " Q · longest "@) + clock(s.longest_monologue_ms as nat) + " · "@ + (decimal(
        s.interruptions_made as nat,
    ) + " interruptions"@));
}

/// The estimate is a sixth of the meeting, in whole seconds, but at least fifteen
/// seconds.
pub proof fn estimates_are_a_sixth(secs: nat)
    ensures
        diarize_estimate(secs) >= 15,
        secs >= 90 ==> diarize_estimate(secs) * 6 <= secs < diarize_estimate(secs) * 6 + 6,
        secs < 96 ==> diarize_estimate(secs) == 15,
{
}

/// The length of a session is that of the first one with its id, once it has ended.
pub proof fn lengths_are_looked_up(sessions: Seq<Session>, id: Seq<char>, i: int)
    ensures
        (forall|k: int| 0 <= k < sessions.len() ==> (#[trigger] sessions[k]).id@ != id)
            ==> length_of(sessions, id) is None,
        0 <= i < sessions.len() && sessions[i].id@ == id && (forall|k: int|
            0 <= k < i ==> (#[trigger] sessions[k]).id@ != id) ==> length_of(sessions, id)
            == seconds_of(sessions[i]),
    decreases sessions.len(),
{
    if sessions.len() > 0 {
        let t = sessions.skip(1);
        lengths_are_looked_up(t, id, i - 1);
        assert(forall|k: int| 0 <= k < t.len() ==> t[k] == sessions[k + 1]);
        if forall|k: int| 0 <= k < sessions.len() ==> (#[trigger] sessions[k]).id@ != id {
            assert(sessions[0].id@ != id);
            assert forall|k: int| 0 <= k < t.len() implies (#[trigger] t[k]).id@ != id by {
                assert(sessions[k + 1].id@ != id);
            }
        }
        if 0 < i < sessions.len() && sessions[i].id@ == id && (forall|k: int|
            0 <= k < i ==> (#[trigger] sessions[k]).id@ != id) {
            assert(sessions[0].id@ != id);
            assert forall|k: int| 0 <= k < i - 1 implies (#[trigger] t[k]).id@ != id by {
                assert(sessions[k + 1].id@ != id);
            }
        }
    }
}

/// A count that was typed is read, with or without space around it; what is no number
/// counts as none.
pub proof fn typed_counts_are_read(n: u32, s: Seq<char>)
    ensures
        typed_count(decimal(n as nat)) == n,
        s.len() == 0 ==> typed_count(s) == 0,
        0 <= typed_count(s) <= u32::MAX,
        typed_count(trimmed(s)) == typed_count(s),
{
    let d = decimal(n as nat);
    crate::number::decimal_has_digits_only(n as nat);
    crate::number::written_number_reads_back(n as int, 0, u32::MAX as int);
    assert(crate::number::is_digit(d[0]));
    assert(crate::number::is_digit(d[d.len() - 1]));
    let (a, b) = crate::text::trimming_takes_the_margins(d);
    lemma_plain_trims(d);
    let (x, y) = crate::text::trimming_takes_the_margins(s);
    if s.len() == 0 {
        assert(trimmed(s).len() == 0);
    }
    crate::number::only_numbers_are_read(trimmed(s), 0, u32::MAX as int);
}

proof fn lemma_plain_trims(d: Seq<char>)
    requires
        d.len() > 0,
        crate::number::is_digit(d[0]),
        crate::number::is_digit(d.last()),
    ensures
        trimmed(d) == d,
{
    assert(crate::text::trim_front(d) == d);
    assert(crate::text::trim_back(d) == d);
}

/// A session has audio exactly if one of its channels or speakers has; its speakers are
/// those of its lines.
pub proof fn audio_is_any_track(a: AudioFiles, segs: Seq<Segment>, more: Seq<Segment>, n: i32)
    ensures
        a.me is Some || a.others is Some ==> any_audio(a),
        any_audio(a) && a.me is None && a.others is None ==> a.speakers@.dom().len() > 0,
        speakers_in(segs + more) == speakers_in(segs).union(speakers_in(more)),
        speakers_in(Seq::empty()) == Set::<i32>::empty(),
{
    assert forall|i: i32| #[trigger] speakers_in(segs + more).contains(i) <==> speakers_in(
        segs,
    ).contains(i) || speakers_in(more).contains(i) by {
        let all = segs + more;
        if speakers_in(segs).contains(i) {
            let k = choose|k: int| 0 <= k < segs.len() && (#[trigger] segs[k]).speaker == Some(i);
            assert(all[k].speaker == Some(i));
        }
        if speakers_in(more).contains(i) {
            let k = choose|k: int| 0 <= k < more.len() && (#[trigger] more[k]).speaker == Some(i);
            assert(all[segs.len() + k].speaker == Some(i));
        }
        if speakers_in(all).contains(i) {
            let k = choose|k: int| 0 <= k < all.len() && (#[trigger] all[k]).speaker == Some(i);
            if k < segs.len() {
                assert(segs[k].speaker == Some(i));
            } else {
                assert(more[k - segs.len()].speaker == Some(i));
            }
        }
    }
    assert(speakers_in(segs + more) =~= speakers_in(segs).union(speakers_in(more)));
    assert(speakers_in(Seq::empty()) =~= Set::<i32>::empty());
}

/// The notice is the one of the backend in use.
pub proof fn notices_speak_of_the_backend(backend: Seq<char>, a: Seq<char>, b: Seq<char>)
    ensures
        llm_notice("external"@, a, b) == a,
        backend != "external"@ ==> llm_notice(backend, a, b) == b,
{
}

} // verus!
