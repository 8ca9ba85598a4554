//! The profile of a person: where they were heard, and what they said.

use crate::model::{ProfileData, ProfileMeeting, Segment, SessionStats, Source};
use crate::number::write_i64;
use crate::text::{copy_opt, same};
#[allow(unused_imports)]
use crate::tracks::speaker_suffix;
use vstd::prelude::*;

verus! {

/// One session that a voice was heard in, with what is stored about it.
#[derive(Debug, Clone)]
pub struct Appearance {
    pub session_id: String,
    pub title: Option<String>,
    /// The number that the voice has there.
    pub speaker: Option<i32>,
    /// When the session began, if it is still stored.
    pub started_at: Option<u64>,
    /// The stored analytics.
    pub stats: Option<SessionStats>,
    /// The transcript.
    pub lines: Option<Vec<Segment>>,
}

/// Sessions whose lines are read, at most.
pub const RECENT: usize = 10;

/// The first row of a speaker.
pub open spec fn is_row(stats: SessionStats, n: i32, i: int) -> bool {
    &&& 0 <= i < stats.speakers@.len()
    &&& stats.speakers@[i].key@ == speaker_suffix(n as int)
    &&& forall|j: int|
        0 <= j < i ==> (#[trigger] stats.speakers@[j]).key@ != speaker_suffix(n as int)
}

/// The talk share and the interruptions of a speaker; nothing without a row.
pub open spec fn talk_in(s: SessionStats, n: i32) -> (u32, u32) {
    if exists|i: int| is_row(s, n, i) {
        let row = s.speakers@[choose|i: int| is_row(s, n, i)];
        (row.talk_share, row.interruptions_made)
    } else {
        (0, 0)
    }
}

/// The talk share and the interruptions of a speaker, as far as they are known.
pub open spec fn talk_of(stats: Option<SessionStats>, speaker: Option<i32>) -> (u32, u32) {
    match (stats, speaker) {
        (Some(s), Some(n)) => talk_in(s, n),
        _ => (0, 0),
    }
}

proof fn lemma_row(s: SessionStats, n: i32, i: int)
    requires
        is_row(s, n, i),
    ensures
        talk_in(s, n) == (
            s.speakers@[i].talk_share,
            s.speakers@[i].interruptions_made,
        ),
{
    let k = choose|k: int| is_row(s, n, k);
    assert(is_row(s, n, k));
    if k < i {
        assert(s.speakers@[k].key@ != speaker_suffix(n as int));
    }
    if i < k {
        assert(s.speakers@[i].key@ != speaker_suffix(n as int));
    }
}

/// The talk share and the interruptions of a speaker.
pub fn talk_row(stats: &Option<SessionStats>, speaker: Option<i32>) -> (r: (u32, u32))
    ensures
        r == talk_of(*stats, speaker),
{
    if let Some(s) = stats {
        if let Some(n) = speaker {
            let mut key = "spk-".to_string();
            key.push_str(&write_i64(n as i64));
            let mut i: usize = 0;
            while i < s.speakers.len()
                invariant
                    i <= s.speakers@.len(),
                    key@ == speaker_suffix(n as int),
                    *stats == Some(*s),
                    speaker == Some(n),
                    forall|j: int|
                        0 <= j < i ==> (#[trigger] s.speakers@[j]).key@ != speaker_suffix(n as int),
                decreases s.speakers@.len() - i,
            {
                if same(&s.speakers[i].key, &key) {
                    proof {
                        lemma_row(*s, n, i as int);
                    }
                    return (s.speakers[i].talk_share, s.speakers[i].interruptions_made);
                }
                i += 1;
            }
            assert forall|k: int| !is_row(*s, n, k) by {
                if 0 <= k < s.speakers@.len() {
                    assert(s.speakers@[k].key@ != speaker_suffix(n as int));
                }
            }
        }
    }
    (0, 0)
}

/// The meeting row of an appearance.
pub open spec fn meeting_of(a: Appearance) -> ProfileMeeting {
    ProfileMeeting {
        session_id: a.session_id,
        title: a.title,
        started_at: match a.started_at {
            Some(t) => t,
            None => 0,
        },
        talk_share: talk_of(a.stats, a.speaker).0,
        interruptions: talk_of(a.stats, a.speaker).1,
    }
}

/// The meeting rows of a person.
pub open spec fn meetings_of(v: Seq<Appearance>) -> Seq<ProfileMeeting> {
    Seq::new(v.len(), |i: int| meeting_of(v[i]))
}

/// When a person was last heard.
pub open spec fn last_heard(v: Seq<Appearance>) -> u64
    decreases v.len(),
{
    if v.len() == 0 {
        0
    } else {
        let p = last_heard(v.drop_last());
        match v.last().started_at {
            Some(t) => if t > p {
                t
            } else {
                p
            },
            None => p,
        }
    }
}

/// A line that a person said.
pub open spec fn said_by(seg: Segment, n: i32) -> bool {
    seg.source == Source::Others && seg.speaker == Some(n)
}

/// The lines of a transcript that a person said (`mine`), or did not say.
pub open spec fn lines_by(segs: Seq<Segment>, n: i32, mine: bool) -> Seq<String>
    decreases segs.len(),
{
    if segs.len() == 0 {
        Seq::empty()
    } else {
        let p = lines_by(segs.drop_last(), n, mine);
        if said_by(segs.last(), n) == mine {
            p.push(segs.last().text)
        } else {
            p
        }
    }
}

/// The lines of all transcripts that a person said, or did not say.
pub open spec fn all_lines(v: Seq<Appearance>, mine: bool) -> Seq<String>
    decreases v.len(),
{
    if v.len() == 0 {
        Seq::empty()
    } else {
        let p = all_lines(v.drop_last(), mine);
        match (v.last().lines, v.last().speaker) {
            (Some(s), Some(n)) => p + lines_by(s@, n, mine),
            _ => p,
        }
    }
}

/// The appearances whose lines are read.
pub open spec fn recent(v: Seq<Appearance>) -> Seq<Appearance> {
    if v.len() <= RECENT {
        v
    } else {
        v.take(RECENT as int)
    }
}

fn split_lines(segs: &Vec<Segment>, n: i32, person: &mut Vec<String>, others: &mut Vec<String>)
    ensures
        final(person)@ == old(person)@ + lines_by(segs@, n, true),
        final(others)@ == old(others)@ + lines_by(segs@, n, false),
{
    let mut i: usize = 0;
    while i < segs.len()
        invariant
            i <= segs@.len(),
            person@ == old(person)@ + lines_by(segs@.take(i as int), n, true),
            others@ == old(others)@ + lines_by(segs@.take(i as int), n, false),
        decreases segs@.len() - i,
    {
        assert(segs@.take(i + 1).drop_last() =~= segs@.take(i as int));
        let mine = match segs[i].speaker {
            Some(k) => segs[i].source == Source::Others && k == n,
            None => false,
        };
        if mine {
            person.push(segs[i].text.clone());
        } else {
            others.push(segs[i].text.clone());
        }
        i += 1;
    }
    assert(segs@.take(i as int) =~= segs@);
}

/// What is gathered for a profile.
#[derive(Debug, Clone)]
pub struct ProfileSource {
    pub meetings: Vec<ProfileMeeting>,
    pub last_heard_ms: u64,
    /// What the person said in the recent sessions.
    pub person_lines: Vec<String>,
    /// What everybody else said there.
    pub other_lines: Vec<String>,
}

/// Gathers what a profile is made of.
pub fn profile_source(v: &Vec<Appearance>) -> (r: ProfileSource)
    ensures
        r.meetings@ == meetings_of(v@),
        r.last_heard_ms == last_heard(v@),
        r.person_lines@ == all_lines(recent(v@), true),
        r.other_lines@ == all_lines(recent(v@), false),
{
    let mut meetings: Vec<ProfileMeeting> = Vec::new();
    let mut last_heard_ms: u64 = 0;
    let mut person_lines: Vec<String> = Vec::new();
    let mut other_lines: Vec<String> = Vec::new();
    let mut i: usize = 0;
    while i < v.len()
        invariant
            i <= v@.len(),
            meetings@ == meetings_of(v@.take(i as int)),
            last_heard_ms == last_heard(v@.take(i as int)),
            person_lines@ == all_lines(recent(v@.take(i as int)), true),
            other_lines@ == all_lines(recent(v@.take(i as int)), false),
        decreases v@.len() - i,
    {
        let ghost a = v@.take(i as int);
        let ghost b = v@.take(i + 1);
        assert(b.drop_last() =~= a);
        let (talk_share, interruptions) = talk_row(&v[i].stats, v[i].speaker);
        let started_at: u64 = match v[i].started_at {
            Some(t) => {
                if t > last_heard_ms {
                    last_heard_ms = t;
                }
                t
            },
            None => 0,
        };
        meetings.push(
            ProfileMeeting {
                session_id: v[i].session_id.clone(),
                title: copy_opt(&v[i].title),
                started_at,
                talk_share,
                interruptions,
            },
        );
        assert(meetings@ =~= meetings_of(b));
        if i < RECENT {
            assert(recent(b).drop_last() =~= recent(a));
            if let Some(segs) = &v[i].lines {
                if let Some(n) = v[i].speaker {
                    split_lines(segs, n, &mut person_lines, &mut other_lines);
                }
            }
        } else {
            assert(recent(b) =~= recent(a));
        }
        i += 1;
    }
    assert(v@.take(i as int) =~= v@);
    ProfileSource { meetings, last_heard_ms, person_lines, other_lines }
}

/// The profile. The open items and the topics come from the overview and from
/// the lines.
pub fn profile_data(
    voiceprint_id: i64,
    name: String,
    source: ProfileSource,
    open_items: Vec<String>,
    topics: Vec<String>,
) -> (r: ProfileData)
    ensures
        r == (ProfileData {
            voiceprint_id,
            name,
            meetings: source.meetings,
            open_items,
            topics,
            last_heard_ms: source.last_heard_ms,
        }),
{
    ProfileData {
        voiceprint_id,
        name,
        meetings: source.meetings,
        open_items,
        topics,
        last_heard_ms: source.last_heard_ms,
    }
}

/// Every line of a transcript is counted once: the person said it, or not.
pub proof fn lines_are_split(segs: Seq<Segment>, n: i32)
    ensures
        lines_by(segs, n, true).len() + lines_by(segs, n, false).len() == segs.len(),
    decreases segs.len(),
{
    if segs.len() > 0 {
        lines_are_split(segs.drop_last(), n);
    }
}

/// The time a person was last heard is that of one of their sessions, and none
/// of them began later.
pub proof fn last_heard_is_the_latest(v: Seq<Appearance>)
    ensures
        forall|i: int|
            0 <= i < v.len() ==> ((#[trigger] v[i]).started_at matches Some(t) ==> t <= last_heard(
                v,
            )),
        last_heard(v) == 0 || exists|i: int|
            0 <= i < v.len() && (#[trigger] v[i]).started_at == Some(last_heard(v)),
    decreases v.len(),
{
    if v.len() > 0 {
        let h = v.drop_last();
        last_heard_is_the_latest(h);
        assert forall|i: int| 0 <= i < v.len() implies ((#[trigger] v[i]).started_at matches Some(
            t,
        ) ==> t <= last_heard(v)) by {
            if i < h.len() {
                assert(h[i] == v[i]);
            }
        }
        if last_heard(v) != 0 {
            if last_heard(v) == last_heard(h) {
                let k = choose|k: int|
                    0 <= k < h.len() && (#[trigger] h[k]).started_at == Some(last_heard(h));
                assert(v[k].started_at == Some(last_heard(v)));
            } else {
                assert(v[v.len() - 1].started_at == Some(last_heard(v)));
            }
        }
    }
}

/// The lines of a person are those of the others' channel with their number, in the
/// order of the transcript; all others are somebody else's.
pub proof fn lines_go_to_who_said_them(a: Seq<Segment>, b: Seq<Segment>, seg: Segment, n: i32)
    ensures
        lines_by(a + b, n, true) == lines_by(a, n, true) + lines_by(b, n, true),
        lines_by(a + b, n, false) == lines_by(a, n, false) + lines_by(b, n, false),
        seg.source == Source::Others && seg.speaker == Some(n) ==> lines_by(seq![seg], n, true)
            == seq![seg.text] && lines_by(seq![seg], n, false).len() == 0,
        seg.source != Source::Others || seg.speaker != Some(n) ==> lines_by(seq![seg], n, false)
            == seq![seg.text] && lines_by(seq![seg], n, true).len() == 0,
    decreases b.len(),
{
    let one = seq![seg];
    assert(one.drop_last() =~= Seq::empty());
    assert(lines_by(one.drop_last(), n, true) =~= Seq::<String>::empty());
    assert(lines_by(one.drop_last(), n, false) =~= Seq::<String>::empty());
    if said_by(seg, n) {
        assert(lines_by(one, n, true) =~= seq![seg.text]);
    } else {
        assert(lines_by(one, n, false) =~= seq![seg.text]);
    }
    if b.len() == 0 {
        assert(a + b =~= a);
        assert(lines_by(a, n, true) + lines_by(b, n, true) =~= lines_by(a, n, true));
        assert(lines_by(a, n, false) + lines_by(b, n, false) =~= lines_by(a, n, false));
    } else {
        assert((a + b).drop_last() =~= a + b.drop_last());
        lines_go_to_who_said_them(a, b.drop_last(), seg, n);
        assert(lines_by(a + b, n, true) =~= lines_by(a, n, true) + lines_by(b, n, true));
        assert(lines_by(a + b, n, false) =~= lines_by(a, n, false) + lines_by(b, n, false));
    }
}

/// The lines of all sessions stand one session after the other; a session without a
/// transcript, or in which the person has no number, adds none.
pub proof fn sessions_give_their_lines(a: Seq<Appearance>, b: Seq<Appearance>, x: Appearance, mine: bool)
    ensures
        all_lines(a + b, mine) == all_lines(a, mine) + all_lines(b, mine),
        x.lines is None || x.speaker is None ==> all_lines(seq![x], mine).len() == 0,
        x.lines is Some && x.speaker is Some ==> all_lines(seq![x], mine) == lines_by(
            x.lines->0@,
            x.speaker->0,
            mine,
        ),
    decreases b.len(),
{
    let one = seq![x];
    assert(one.drop_last() =~= Seq::empty());
    assert(all_lines(one.drop_last(), mine) =~= Seq::<String>::empty());
    if x.lines is Some && x.speaker is Some {
        assert(all_lines(one, mine) =~= lines_by(x.lines->0@, x.speaker->0, mine));
    }
    if b.len() == 0 {
        assert(a + b =~= a);
        assert(all_lines(a, mine) + all_lines(b, mine) =~= all_lines(a, mine));
    } else {
        assert((a + b).drop_last() =~= a + b.drop_last());
        sessions_give_their_lines(a, b.drop_last(), x, mine);
        assert(all_lines(a + b, mine) =~= all_lines(a, mine) + all_lines(b, mine));
    }
}

/// The lines of the first ten sessions are read.
pub proof fn ten_sessions_are_read(v: Seq<Appearance>, i: int)
    requires
        0 <= i < recent(v).len(),
    ensures
        recent(v)[i] == v[i],
        v.len() <= 10 ==> recent(v).len() == v.len(),
        v.len() > 10 ==> recent(v).len() == 10,
{
}

/// Every session has a row, in the same place, with the numbers of the person's first
/// row in its statistics, and zeros where there is none.
pub proof fn meetings_show_the_persons_numbers(v: Seq<Appearance>, at: int, i: int)
    requires
        0 <= at < v.len(),
    ensures
        meetings_of(v).len() == v.len(),
        ({
            let a = v[at];
            let m = meetings_of(v)[at];
            &&& m.session_id == a.session_id && m.title == a.title
            &&& a.started_at is Some ==> m.started_at == a.started_at->0
            &&& a.started_at is None ==> m.started_at == 0
            &&& a.stats is None || a.speaker is None ==> m.talk_share == 0 && m.interruptions == 0
            &&& a.stats is Some && a.speaker is Some ==> {
                let rows = a.stats->0.speakers@;
                let key = "spk-"@ + crate::number::signed(a.speaker->0 as int);
                &&& 0 <= i < rows.len() && rows[i].key@ == key && (forall|j: int|
                    0 <= j < i ==> (#[trigger] rows[j]).key@ != key) ==> m.talk_share
                    == rows[i].talk_share && m.interruptions == rows[i].interruptions_made
                &&& (forall|j: int| 0 <= j < rows.len() ==> (#[trigger] rows[j]).key@ != key)
                    ==> m.talk_share == 0 && m.interruptions == 0
            }
        }),
{
    let a = v[at];
    if a.stats is Some && a.speaker is Some {
        let s = a.stats->0;
        let n = a.speaker->0;
        if is_row(s, n, i) {
            lemma_row(s, n, i);
        }
    }
}

} // verus!
