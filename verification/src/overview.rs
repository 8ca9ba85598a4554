//! The living overview document: which sessions are folded into it, when a new
//! version is accepted, and how the last one can be taken back.

use std::collections::HashMap;

#[allow(unused_imports)]
use crate::dates::{fmt_date_ms, is_iso_date};
use crate::labels::speaker_label;
#[allow(unused_imports)]
use crate::labels::{nameable, speaker_of};
use crate::model::{Segment, Session};
#[allow(unused_imports)]
use crate::order::{arranged, in_order, order_by, picked};
#[allow(unused_imports)]
use crate::pattern::{join, joined, views};
#[allow(unused_imports)]
use crate::text::{blank, has_ink, inked, is_blank, trim, trimmed};
use vstd::prelude::*;
use vstd::string::*;

verus! {

// ---------------------------------------------------------------------------
// Which sessions
// ---------------------------------------------------------------------------

/// The session has ended and is not in the overview yet.
pub open spec fn is_unfolded(s: Session) -> bool {
    s.ended_at is Some && s.overview_folded_ms is None
}

/// The sessions that are not in the overview yet, in list order.
pub open spec fn unfolded(sessions: Seq<Session>) -> Seq<Session> {
    sessions.filter(|s: Session| is_unfolded(s))
}

/// When the sessions ended.
pub open spec fn ends(sessions: Seq<Session>) -> Seq<u64> {
    sessions.map_values(
        |s: Session|
            match s.ended_at {
                Some(e) => e,
                None => 0,
            },
    )
}

/// The values behind references.
pub open spec fn deref_all(r: Seq<&Session>) -> Seq<Session> {
    r.map_values(|s: &Session| *s)
}

/// The ended sessions that are not in the overview yet, the oldest end first; a
/// running recording never counts.
pub fn unfolded_sessions(sessions: &[Session]) -> (r: Vec<&Session>)
    ensures
        arranged(unfolded(sessions@), ends(unfolded(sessions@)), deref_all(r@)),
{
    let ghost p = |s: Session| is_unfolded(s);
    let mut places: Vec<usize> = Vec::new();
    let mut keys: Vec<u64> = Vec::new();
    let mut i: usize = 0;
    let ghost mut found: Seq<Session> = Seq::empty();
    assert(sessions@.take(0).filter(p) =~= Seq::empty()) by {
        reveal(Seq::filter);
    }
    assert(keys@ =~= ends(found));
    while i < sessions.len()
        invariant
            i <= sessions@.len(),
            p == (|s: Session| is_unfolded(s)),
            found == sessions@.take(i as int).filter(p),
            places@.len() == found.len(),
            forall|k: int|
                0 <= k < places@.len() ==> (#[trigger] places@[k]) < sessions@.len()
                    && sessions@[places@[k] as int] == found[k],
            keys@ == ends(found),
        decreases sessions@.len() - i,
    {
        proof {
            reveal(Seq::filter);
            assert(sessions@.take(i + 1).drop_last() =~= sessions@.take(i as int));
            assert(sessions@.take(i + 1).last() == sessions@[i as int]);
        }
        if sessions[i].ended_at.is_some() && sessions[i].overview_folded_ms.is_none() {
            let ghost was = places@;
            let ghost before = found;
            places.push(i);
            keys.push(
                match sessions[i].ended_at {
                    Some(e) => e,
                    None => 0,
                },
            );
            proof {
                found = before.push(sessions@[i as int]);
                assert(keys@ =~= ends(found));
                assert forall|k: int| 0 <= k < places@.len() implies (#[trigger] places@[k])
                    < sessions@.len() && sessions@[places@[k] as int] == found[k] by {
                    if k < was.len() {
                        assert(places@[k] == was[k]);
                    }
                }
            }
        }
        i += 1;
    }
    assert(sessions@.take(i as int) =~= sessions@);
    let order = order_by(&keys);
    let mut r: Vec<&Session> = Vec::new();
    let mut k: usize = 0;
    while k < order.len()
        invariant
            k <= order@.len(),
            in_order(keys@, order@),
            keys@.len() == places@.len(),
            places@.len() == found.len(),
            forall|j: int|
                0 <= j < places@.len() ==> (#[trigger] places@[j]) < sessions@.len()
                    && sessions@[places@[j] as int] == found[j],
            r@.len() == k,
            forall|j: int| 0 <= j < k ==> *(#[trigger] r@[j]) == found[order@[j] as int],
        decreases order@.len() - k,
    {
        let at: usize = places[order[k]];
        r.push(&sessions[at]);
        k += 1;
    }
    assert(deref_all(r@) =~= picked(found, order@));
    r
}

proof fn lemma_unfolded_listed(sessions: Seq<Session>, i: int)
    requires
        0 <= i < unfolded(sessions).len(),
    ensures
        sessions.contains(unfolded(sessions)[i]),
        is_unfolded(unfolded(sessions)[i]),
    decreases sessions.len(),
{
    reveal(Seq::filter);
    let h = sessions.drop_last();
    let u = unfolded(h);
    if i < u.len() {
        lemma_unfolded_listed(h, i);
        assert(unfolded(sessions)[i] == u[i]);
        let k = choose|k: int| 0 <= k < h.len() && h[k] == u[i];
        assert(sessions[k] == u[i]);
    } else {
        assert(sessions[sessions.len() - 1] == unfolded(sessions)[i]);
    }
}

/// A fold run takes ended sessions that were not folded, and takes the older end
/// first.
pub proof fn folds_go_oldest_first(sessions: Seq<Session>, r: Seq<Session>)
    requires
        arranged(unfolded(sessions), ends(unfolded(sessions)), r),
    ensures
        forall|i: int| 0 <= i < r.len() ==> is_unfolded(#[trigger] r[i]) && sessions.contains(r[i]),
        forall|i: int, j: int|
            #![trigger r[i], r[j]]
            0 <= i < j < r.len() ==> r[i].ended_at->0 <= r[j].ended_at->0,
{
    let u = unfolded(sessions);
    let q = choose|q: Seq<usize>| #[trigger] in_order(ends(u), q) && r == picked(u, q);
    assert forall|i: int| 0 <= i < r.len() implies is_unfolded(#[trigger] r[i])
        && sessions.contains(r[i]) by {
        assert(q[i] < u.len());
        assert(r[i] == u[q[i] as int]);
        lemma_unfolded_listed(sessions, q[i] as int);
    }
    assert forall|i: int, j: int|
        #![trigger r[i], r[j]]
        0 <= i < j < r.len() implies r[i].ended_at->0 <= r[j].ended_at->0 by {
        assert(q[i] < u.len() && q[j] < u.len());
        assert(crate::order::before(ends(u), q[i], q[j]));
        lemma_unfolded_listed(sessions, q[i] as int);
        lemma_unfolded_listed(sessions, q[j] as int);
        assert(ends(u)[q[i] as int] == r[i].ended_at->0);
        assert(ends(u)[q[j] as int] == r[j].ended_at->0);
    }
}

/// The name of a session in the overview.
pub open spec fn label_text(s: Session, date: Seq<char>) -> Seq<char> {
    date + " — "@ + (match s.title {
        Some(t) => if trimmed(t@).len() > 0 {
            trimmed(t@)
        } else {
            s.id@
        },
        None => s.id@,
    })
}

/// The name of a session in the overview, with this date.
pub fn overview_label_on(session: &Session, date: &str) -> (r: String)
    ensures
        r@ == label_text(*session, date@),
{
    let mut r = date.to_string();
    r.push_str(" — ");
    match &session.title {
        Some(t) => {
            let x = trim(t);
            if x.as_str().unicode_len() > 0 {
                r.push_str(&x);
            } else {
                r.push_str(&session.id);
            }
        },
        None => {
            r.push_str(&session.id);
        },
    }
    r
}

/// The name of a session in the overview: its date, and its title or id.
pub fn overview_session_label(session: &Session) -> (r: String)
    ensures
        exists|date: Seq<char>| #[trigger]
            is_iso_date(session.started_at, Seq::empty(), date) && r@ == label_text(
                *session,
                date,
            ),
{
    let date = fmt_date_ms(session.started_at);
    overview_label_on(session, &date)
}

// ---------------------------------------------------------------------------
// What the language model reads
// ---------------------------------------------------------------------------

/// One line of a transcript with its speaker.
pub open spec fn labeled_line(seg: Segment, names: Map<i32, String>) -> Seq<char> {
    speaker_of(seg, names) + ": "@ + seg.text@
}

/// The lines of a transcript with their speakers.
pub open spec fn labeled_lines(segs: Seq<Segment>, names: Map<i32, String>) -> Seq<Seq<char>> {
    segs.map_values(|s: Segment| labeled_line(s, names))
}

/// A transcript with speakers, one line each.
pub open spec fn labeled_text(segs: Seq<Segment>, names: Map<i32, String>) -> Seq<char> {
    joined(labeled_lines(segs, names), "\n"@)
}

/// Renders a transcript with speakers, one line each.
pub fn render_labeled_transcript(segs: &[Segment], names: &HashMap<i32, String>) -> (r: String)
    requires
        forall|i: int| 0 <= i < segs@.len() ==> nameable(#[trigger] segs@[i], names@),
    ensures
        r@ == labeled_text(segs@, names@),
{
    let mut lines: Vec<String> = Vec::new();
    let mut i: usize = 0;
    while i < segs.len()
        invariant
            i <= segs@.len(),
            lines@.len() == i,
            forall|k: int| 0 <= k < segs@.len() ==> nameable(#[trigger] segs@[k], names@),
            forall|k: int|
                0 <= k < i ==> (#[trigger] lines@[k])@ == labeled_line(segs@[k], names@),
        decreases segs@.len() - i,
    {
        let mut l = speaker_label(&segs[i], names);
        l.push_str(": ");
        l.push_str(&segs[i].text);
        lines.push(l);
        i += 1;
    }
    assert(views(lines@) =~= labeled_lines(segs@, names@));
    join(&lines, "\n")
}

/// A transcript with the host's notes before it, where there are any.
pub open spec fn noted_text(notes: Option<String>, transcript: Seq<char>) -> Seq<char> {
    if has_ink(notes) {
        "Notes from the session host (links, action items, and reminders — treat these as authoritative and include them where relevant):\n"@
            + trimmed(notes->0@) + "\n\n"@ + transcript
    } else {
        transcript
    }
}

/// Puts the host's notes before a transcript, where there are any.
pub fn with_notes(notes: &Option<String>, transcript: String) -> (r: String)
    ensures
        r@ == noted_text(*notes, transcript@),
{
    if inked(notes) {
        if let Some(n) = notes {
            let mut r =
                "Notes from the session host (links, action items, and reminders — treat these as authoritative and include them where relevant):\n".to_string();
            r.push_str(&trim(n));
            r.push_str("\n\n");
            r.push_str(&transcript);
            return r;
        }
    }
    transcript
}

/// What is folded of a session: its compression, or its transcript where it has
/// none; nothing without a transcript.
pub open spec fn fold_text(
    segs: Seq<Segment>,
    compressed: Option<String>,
    names: Map<i32, String>,
) -> Option<Seq<char>> {
    if segs.len() == 0 {
        None
    } else if has_ink(compressed) {
        Some(compressed->0@)
    } else {
        Some(labeled_text(segs, names))
    }
}

/// What is folded of a session. A session without a transcript is skipped, and
/// stays to be folded later.
pub fn fold_input(
    segs: &Vec<Segment>,
    compressed: &Option<String>,
    names: &HashMap<i32, String>,
) -> (r: Option<String>)
    requires
        !has_ink(*compressed) ==> forall|i: int|
            0 <= i < segs@.len() ==> nameable(#[trigger] segs@[i], names@),
    ensures
        match r {
            Some(t) => fold_text(segs@, *compressed, names@) == Some(t@),
            None => fold_text(segs@, *compressed, names@) is None,
        },
{
    if segs.len() == 0 {
        return None;
    }
    if inked(compressed) {
        if let Some(c) = compressed {
            return Some(c.clone());
        }
    }
    Some(render_labeled_transcript(segs.as_slice(), names))
}

// ---------------------------------------------------------------------------
// Accepting a new version
// ---------------------------------------------------------------------------

/// The new version lost too much: the document it replaces is not blank, and it
/// has less than a fifth of its bytes.
pub open spec fn destructive(base: Seq<char>, folded: Seq<char>) -> bool {
    !is_blank(base) && vstd::utf8::encode_utf8(folded).len() < vstd::utf8::encode_utf8(
        base,
    ).len() / 5
}

/// Whether the new version lost too much.
pub fn is_destructive(base: &str, folded: &str) -> (r: bool)
    ensures
        r == destructive(base@, folded@),
{
    !blank(base) && folded.as_bytes().len() < base.as_bytes().len() / 5
}

/// What happens after the language model answered.
#[derive(Debug, Clone)]
pub enum FoldMove {
    /// Store this version and mark the session as folded.
    Write(String),
    /// The document changed meanwhile: fold again, against its new text.
    Redo,
    /// Keep the document, and leave the session to be folded later.
    Keep,
    /// The model failed, for this reason; go on with the next session.
    Failed(String),
    /// The run was cancelled.
    Stop,
}

/// The fold of one session.
pub struct FoldRun {
    /// The document that the new version will replace.
    pub base: String,
    /// When that document was stored.
    pub stamp: u64,
    /// The fold was done a second time.
    pub redone: bool,
}

/// The move for a version that is to replace `base`.
pub open spec fn judged(base: Seq<char>, folded: String) -> FoldMove {
    if destructive(base, folded@) {
        FoldMove::Keep
    } else {
        FoldMove::Write(folded)
    }
}

impl FoldRun {
    /// Begins the fold of a session against the document as it is stored.
    pub fn new(doc: String, stamp: u64) -> (r: FoldRun)
        ensures
            r.base == doc,
            r.stamp == stamp,
            !r.redone,
    {
        FoldRun { base: doc, stamp, redone: false }
    }

    /// The model answered. `now` and `now_stamp` are the document as it is stored
    /// at this moment: if it changed since the fold began, the fold is done once
    /// more against it.
    pub fn answered(
        &mut self,
        cancelled: bool,
        result: Result<String, String>,
        now: String,
        now_stamp: u64,
    ) -> (m: FoldMove)
        ensures
            m == (if !old(self).redone && cancelled {
                FoldMove::Stop
            } else {
                match result {
                    Err(e) => FoldMove::Failed(e),
                    Ok(folded) => if !old(self).redone && now_stamp != old(self).stamp {
                        FoldMove::Redo
                    } else {
                        judged(old(self).base@, folded)
                    },
                }
            }),
            m is Redo ==> *final(self) == (FoldRun {
                base: now,
                stamp: now_stamp,
                redone: true,
            }),
            !(m is Redo) ==> *final(self) == *old(self),
    {
        if !self.redone && cancelled {
            return FoldMove::Stop;
        }
        match result {
            Err(e) => FoldMove::Failed(e),
            Ok(folded) => {
                if !self.redone && now_stamp != self.stamp {
                    self.base = now;
                    self.stamp = now_stamp;
                    self.redone = true;
                    FoldMove::Redo
                } else if is_destructive(&self.base, &folded) {
                    FoldMove::Keep
                } else {
                    FoldMove::Write(folded)
                }
            },
        }
    }
}

/// Folding never wipes the overview: a version with less than a fifth of the
/// text it replaces is not written.
pub proof fn folds_do_not_wipe(base: Seq<char>, folded: String)
    requires
        judged(base, folded) is Write,
        !is_blank(base),
    ensures
        vstd::utf8::encode_utf8(folded@).len() >= vstd::utf8::encode_utf8(base).len() / 5,
        judged(base, folded) == FoldMove::Write(folded),
{
}

// ---------------------------------------------------------------------------
// Stored versions
// ---------------------------------------------------------------------------

/// The stored document and the version before the last fold; absent until first
/// written.
#[verifier::ext_equal]
pub struct OverviewDocs {
    pub doc: Option<Seq<char>>,
    pub prev: Option<Seq<char>>,
}

impl OverviewDocs {
    /// The document that is shown.
    pub open spec fn current(self) -> Seq<char> {
        match self.doc {
            Some(d) => d,
            None => Seq::empty(),
        }
    }

    /// The version before the last fold.
    pub open spec fn previous(self) -> Seq<char> {
        match self.prev {
            Some(d) => d,
            None => Seq::empty(),
        }
    }

    /// A fold was written: the old document is kept as the previous version.
    pub open spec fn folded(self, new: Seq<char>) -> OverviewDocs {
        OverviewDocs {
            doc: Some(new),
            prev: match self.doc {
                Some(d) => Some(d),
                None => self.prev,
            },
        }
    }

    /// The user saved an edit: the previous version stays.
    pub open spec fn edited(self, new: Seq<char>) -> OverviewDocs {
        OverviewDocs { doc: Some(new), ..self }
    }

    /// The last fold was taken back: the two versions change places.
    pub open spec fn reverted(self) -> OverviewDocs {
        OverviewDocs { doc: Some(self.previous()), prev: Some(self.current()) }
    }

    /// The versions after some writes.
    pub open spec fn written(self, w: Seq<MetaWrite>) -> OverviewDocs
        decreases w.len(),
    {
        if w.len() == 0 {
            self
        } else {
            let p = self.written(w.drop_last());
            match w.last() {
                MetaWrite::Doc(t) => OverviewDocs { doc: Some(t@), ..p },
                MetaWrite::Prev(t) => OverviewDocs { prev: Some(t@), ..p },
            }
        }
    }
}

/// A write to the stored versions.
#[derive(Debug, Clone)]
pub enum MetaWrite {
    Doc(String),
    Prev(String),
}

/// The stored versions, as far as they were read.
pub open spec fn docs(doc: Option<String>, prev: Option<String>) -> OverviewDocs {
    OverviewDocs {
        doc: match doc {
            Some(d) => Some(d@),
            None => None,
        },
        prev: match prev {
            Some(d) => Some(d@),
            None => None,
        },
    }
}

/// The writes that store a fold, in order: the snapshot comes first.
pub fn save_overview_doc_with_snapshot(current: &Option<String>, doc: String) -> (w: Vec<MetaWrite>)
    ensures
        forall|prev: Option<String>| #[trigger]
            docs(*current, prev).written(w@) == docs(*current, prev).folded(doc@),
        w@.last() == MetaWrite::Doc(doc),
{
    let mut w: Vec<MetaWrite> = Vec::new();
    if let Some(c) = current {
        w.push(MetaWrite::Prev(c.clone()));
    }
    let ghost first = w@;
    w.push(MetaWrite::Doc(doc));
    proof {
        assert(w@.drop_last() =~= first);
        assert forall|prev: Option<String>| #[trigger]
            docs(*current, prev).written(w@) == docs(*current, prev).folded(doc@) by {
            let d = docs(*current, prev);
            if current is Some {
                assert(first.drop_last() =~= Seq::empty());
                assert(d.written(first.drop_last()) == d);
                assert(d.written(first) == (OverviewDocs { prev: Some(current->0@), ..d }));
            } else {
                assert(d.written(first) == d);
            }
            assert(d.written(w@) =~= d.folded(doc@));
        }
    }
    w
}

/// Whether a session can be folded on request: it is stored, and it has ended.
pub fn can_fold(session: &Option<Session>) -> (r: bool)
    ensures
        r == (session matches Some(s) && s.ended_at is Some),
{
    match session {
        Some(s) => s.ended_at.is_some(),
        None => false,
    }
}

/// The notice about a session that cannot be folded.
pub fn skipped_text(id: &str) -> (r: String)
    ensures
        r@ == "Session "@ + id@ + " not found or not yet ended — skipping."@,
{
    let mut r = "Session ".to_string();
    r.push_str(id);
    r.push_str(" not found or not yet ended — skipping.");
    r
}

/// The notice about a session that was folded.
pub fn folded_text(label: &str) -> (r: String)
    ensures
        r@ == "Overview updated from "@ + label@ + "."@,
{
    let mut r = "Overview updated from ".to_string();
    r.push_str(label);
    r.push_str(".");
    r
}

/// The writes that take the last fold back.
pub fn revert_overview_doc(current: Option<String>, prev: Option<String>) -> (w: Vec<MetaWrite>)
    ensures
        docs(current, prev).written(w@) == docs(current, prev).reverted(),
{
    let ghost d = docs(current, prev);
    let p = match prev {
        Some(x) => x,
        None => String::new(),
    };
    let c = match current {
        Some(x) => x,
        None => String::new(),
    };
    assert(p@ =~= d.previous());
    assert(c@ =~= d.current());
    let mut w: Vec<MetaWrite> = Vec::new();
    assert(d.written(w@) == d);
    w.push(MetaWrite::Doc(p));
    let ghost first = w@;
    assert(first.drop_last() =~= Seq::empty());
    w.push(MetaWrite::Prev(c));
    assert(w@.drop_last() =~= first);
    assert(d.written(first.drop_last()) == d);
    assert(d.written(first) == (OverviewDocs { doc: Some(p@), ..d }));
    assert(d.written(w@) =~= d.reverted());
    w
}

/// The stored document; empty and stamped zero until first written.
pub fn load_overview_doc(stored: Option<(String, u64)>) -> (r: (String, u64))
    ensures
        match stored {
            Some(x) => r == x,
            None => r.0@.len() == 0 && r.1 == 0,
        },
{
    match stored {
        Some(x) => x,
        None => (String::new(), 0),
    }
}

/// Taking a fold back gives the document from before it, and taking that back
/// gives the fold again.
pub proof fn revert_undoes_a_fold(d: OverviewDocs, new: Seq<char>)
    requires
        d.doc is Some,
    ensures
        d.folded(new).reverted().current() == d.current(),
        d.folded(new).reverted().reverted().current() == new,
{
}

/// An edit does not touch the version that a revert goes back to.
pub proof fn edits_keep_the_previous_version(d: OverviewDocs, new: Seq<char>)
    ensures
        d.edited(new).previous() == d.previous(),
        d.edited(new).current() == new,
{
}

// ---------------------------------------------------------------------------
// What the language model is told
// ---------------------------------------------------------------------------

/// Each line of the labelled transcript names the speaker of that line: one line is
/// its speaker, a colon and its text, and a further line stands below the others.
pub proof fn lines_name_their_own_speaker(segs: Seq<Segment>, x: Segment, names: Map<i32, String>)
    ensures
        labeled_text(Seq::empty(), names).len() == 0,
        labeled_text(seq![x], names) == speaker_of(x, names) + ": "@ + x.text@,
        segs.len() > 0 ==> labeled_text(segs.push(x), names) == labeled_text(segs, names) + "\n"@ + (
        speaker_of(x, names) + ": "@ + x.text@),
{
    let one = labeled_lines(seq![x], names);
    assert(one =~= seq![speaker_of(x, names) + ": "@ + x.text@]);
    assert(labeled_lines(Seq::empty(), names) =~= Seq::<Seq<char>>::empty());
    let all = labeled_lines(segs.push(x), names);
    assert(all.drop_last() =~= labeled_lines(segs, names));
    assert(all.last() == speaker_of(x, names) + ": "@ + x.text@);
}

/// A transcript in two parts is rendered part by part.
pub proof fn parts_are_rendered_in_order(
    a: Seq<Segment>,
    b: Seq<Segment>,
    names: Map<i32, String>,
)
    requires
        a.len() > 0,
        b.len() > 0,
    ensures
        labeled_text(a + b, names) == labeled_text(a, names) + "\n"@ + labeled_text(b, names),
    decreases b.len(),
{
    let x = b.last();
    let h = b.drop_last();
    assert(b =~= h.push(x));
    assert(a + b =~= (a + h).push(x));
    lines_name_their_own_speaker(a + h, x, names);
    lines_name_their_own_speaker(h, x, names);
    if h.len() == 0 {
        assert(a + h =~= a);
        assert(b =~= seq![x]);
    } else {
        parts_are_rendered_in_order(a, h, names);
        assert(labeled_text(a + b, names) =~= labeled_text(a, names) + "\n"@ + labeled_text(
            b,
            names,
        ));
    }
}

/// A session is skipped exactly if it has no transcript. With a compression, that is
/// folded; without one, or with a blank one, the labelled transcript is, line by line.
pub proof fn only_empty_sessions_are_skipped(
    segs: Seq<Segment>,
    x: Segment,
    compressed: Option<String>,
    names: Map<i32, String>,
)
    ensures
        fold_text(segs, compressed, names) is None <==> segs.len() == 0,
        fold_text(seq![x], None, names) == Some(speaker_of(x, names) + ": "@ + x.text@),
        segs.len() > 0 ==> fold_text(segs.push(x), None, names) == Some(
            fold_text(segs, None, names)->0 + "\n"@ + (speaker_of(x, names) + ": "@ + x.text@),
        ),
        compressed matches Some(c) && !is_blank(c@) && segs.len() > 0 ==> fold_text(
            segs,
            compressed,
            names,
        ) == Some(compressed->0@),
        compressed matches Some(c) && is_blank(c@) ==> fold_text(segs, compressed, names)
            == fold_text(segs, None, names),
{
    lines_name_their_own_speaker(segs, x, names);
}

/// The host's notes stand before the transcript, which is kept whole; blank notes add
/// nothing.
pub proof fn notes_stand_before_the_transcript(notes: Option<String>, t: Seq<char>)
    ensures
        (notes is None || is_blank(notes->0@)) ==> noted_text(notes, t) == t,
        notes matches Some(n) && !is_blank(n@) ==> noted_text(notes, t) == noted_text(
            notes,
            Seq::empty(),
        ) + t && crate::pattern::finishes(
            noted_text(notes, Seq::empty()),
            trimmed(notes->0@) + "\n\n"@,
        ),
{
    if let Some(n) = notes {
        if !is_blank(n@) {
            let e = noted_text(notes, Seq::empty());
            assert(noted_text(notes, t) =~= e + t);
            let head =
                "Notes from the session host (links, action items, and reminders — treat these as authoritative and include them where relevant):\n"@;
            let tail = trimmed(n@) + "\n\n"@;
            assert(e =~= head + tail);
            assert(e.skip(e.len() - tail.len()) =~= tail);
        }
    }
}

/// A fold run takes every session that has ended and is not in the overview, and no
/// other; no session comes twice that was listed once.
pub proof fn every_open_session_is_folded(sessions: Seq<Session>, r: Seq<Session>)
    requires
        arranged(unfolded(sessions), ends(unfolded(sessions)), r),
        sessions.len() <= usize::MAX,
    ensures
        forall|s: Session| #[trigger]
            r.contains(s) <==> sessions.contains(s) && s.ended_at is Some && s.overview_folded_ms is None,
        r.len() <= sessions.len(),
{
    let u = unfolded(sessions);
    lemma_unfolded_has(sessions);
    crate::order::arranging_keeps_and_sorts(
        u,
        ends(u),
        r,
        |s: Session|
            match s.ended_at {
                Some(e) => e,
                None => 0,
            },
    );
    assert forall|s: Session| #[trigger]
        r.contains(s) <==> sessions.contains(s) && s.ended_at is Some && s.overview_folded_ms is None by {
        assert(u.contains(s) <==> r.contains(s));
    }
}

proof fn lemma_unfolded_has(sessions: Seq<Session>)
    ensures
        forall|s: Session| #[trigger]
            unfolded(sessions).contains(s) <==> sessions.contains(s) && is_unfolded(s),
        unfolded(sessions).len() <= sessions.len(),
    decreases sessions.len(),
{
    reveal(Seq::filter);
    let u = unfolded(sessions);
    if sessions.len() > 0 {
        let h = sessions.drop_last();
        let p = unfolded(h);
        lemma_unfolded_has(h);
        assert forall|s: Session| #[trigger] u.contains(s) <==> sessions.contains(s) && is_unfolded(
            s,
        ) by {
            assert(p.contains(s) <==> h.contains(s) && is_unfolded(s));
            if u.contains(s) {
                let k = choose|k: int| 0 <= k < u.len() && u[k] == s;
                if k < p.len() {
                    assert(p[k] == s);
                    let m = choose|m: int| 0 <= m < h.len() && h[m] == s;
                    assert(sessions[m] == s);
                } else {
                    assert(sessions[sessions.len() - 1] == s);
                }
            }
            if sessions.contains(s) && is_unfolded(s) {
                let m = choose|m: int| 0 <= m < sessions.len() && sessions[m] == s;
                if m < h.len() {
                    assert(h[m] == s);
                    let k = choose|k: int| 0 <= k < p.len() && p[k] == s;
                    assert(u[k] == s);
                } else {
                    assert(u[u.len() - 1] == s);
                }
            }
        }
    } else {
        assert(u =~= Seq::empty());
    }
}

/// A session is named by its date and its title; a blank or missing title gives way to
/// the id. White space around a title makes no difference.
pub proof fn sessions_are_named_by_title_or_id(s: Session, date: Seq<char>)
    ensures
        s.title matches Some(t) && trimmed(t@).len() > 0 ==> label_text(s, date) == date + " — "@
            + trimmed(s.title->0@),
        (s.title is None || trimmed(s.title->0@).len() == 0) ==> label_text(s, date) == date
            + " — "@ + s.id@,
{
}

/// A version is refused exactly if the document it replaces says something and the
/// version has less than a fifth of its bytes; an empty document accepts anything, and
/// so does a document that is no longer than five times the version.
pub proof fn only_wiping_versions_are_refused(base: Seq<char>, folded: String)
    ensures
        judged(base, folded) is Keep || judged(base, folded) == FoldMove::Write(folded),
        is_blank(base) ==> judged(base, folded) == FoldMove::Write(folded),
        vstd::utf8::encode_utf8(folded@).len() * 5 >= vstd::utf8::encode_utf8(base).len()
            ==> judged(base, folded) == FoldMove::Write(folded),
        !is_blank(base) && vstd::utf8::encode_utf8(folded@).len() * 5 + 5
            <= vstd::utf8::encode_utf8(base).len() ==> judged(base, folded) is Keep,
{
}

/// A fold keeps what it replaces, and only that: the new document is shown, the old
/// one is the previous version. A revert shows the previous version and keeps the one
/// that was shown; an edit leaves the previous version alone.
pub proof fn versions_are_not_lost(d: OverviewDocs, new: Seq<char>)
    ensures
        d.folded(new).current() == new,
        d.doc is Some ==> d.folded(new).previous() == d.current(),
        d.doc is None ==> d.folded(new).previous() == d.previous(),
        d.reverted().current() == d.previous(),
        d.reverted().previous() == d.current(),
        d.edited(new).current() == new && d.edited(new).prev == d.prev,
{
}

} // verus!
