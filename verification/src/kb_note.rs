//! The Markdown note of a session, and which files of the knowledge base are
//! written, renamed and removed.

use std::collections::HashMap;

#[allow(unused_imports)]
use crate::dates::{iso_date_or, is_iso_date};
use crate::kb::{kb_base_name, kb_short_id};
#[allow(unused_imports)]
use crate::kb::{base_name, opt_str, tag_suffix};
use crate::labels::speaker_label;
#[allow(unused_imports)]
use crate::labels::{nameable, speaker_of};
use crate::model::{Segment, Session};
#[allow(unused_imports)]
use crate::number::{decimal, write_u64};
#[allow(unused_imports)]
use crate::pattern::{ends_with, finishes, replace_char, replaced};
#[allow(unused_imports)]
use crate::text::{blank, is_blank, same, trim, trimmed};
use vstd::prelude::*;

verus! {

// ---------------------------------------------------------------------------
// Rendering
// ---------------------------------------------------------------------------

/// The text holds something other than white space.
pub open spec fn inked_str(o: Option<&str>) -> bool {
    o matches Some(s) && !is_blank(s@)
}

fn inked(o: Option<&str>) -> (r: bool)
    ensures
        r == inked_str(o),
{
    match o {
        Some(s) => !blank(s),
        None => false,
    }
}

/// A session's title, trimmed; "Untitled" where there is none.
pub open spec fn note_title(s: Session) -> Seq<char> {
    match s.title {
        Some(t) => if trimmed(t@).len() > 0 {
            trimmed(t@)
        } else {
            "Untitled"@
        },
        None => "Untitled"@,
    }
}

/// A length in hours, minutes and seconds; leading zero units are left out.
pub open spec fn length_text(secs: nat) -> Seq<char> {
    let h = secs / 3600;
    let m = (secs % 3600) / 60;
    let s = secs % 60;
    if h > 0 {
        decimal(h) + "h "@ + decimal(m) + "m "@ + decimal(s) + "s"@
    } else if m > 0 {
        decimal(m) + "m "@ + decimal(s) + "s"@
    } else {
        decimal(s) + "s"@
    }
}

/// The front-matter line with the length; nothing for a session without one.
pub open spec fn length_line(s: Session) -> Seq<char> {
    match s.ended_at {
        Some(end) => if end > s.started_at {
            "duration: \""@ + length_text(((end - s.started_at) / 1000) as nat) + "\"\n"@
        } else {
            Seq::empty()
        },
        None => Seq::empty(),
    }
}

/// The front matter and the heading of a note.
pub open spec fn note_head(s: Session, date: Seq<char>) -> Seq<char> {
    "---\n"@ + "title: \""@ + replaced(note_title(s), '"', "\\\""@) + "\"\n"@ + "date: "@ + date
        + "\n"@ + length_line(s) + "session_id: \""@ + s.id@ + "\"\n"@ + "---\n\n"@ + "# "@
        + note_title(s) + "\n\n"@
}

/// One section of a note.
pub open spec fn note_section(heading: Seq<char>, body: Seq<char>) -> Seq<char> {
    heading + trimmed(body) + "\n\n"@
}

/// The transcript lines of a note.
pub open spec fn note_lines(segs: Seq<Segment>, names: Map<i32, String>) -> Seq<char>
    decreases segs.len(),
{
    if segs.len() == 0 {
        Seq::empty()
    } else {
        note_lines(segs.drop_last(), names) + ("**"@ + speaker_of(segs.last(), names) + "**: "@
            + trimmed(segs.last().text@) + "\n\n"@)
    }
}

/// The body of a note: the summary if there is one, then the condensed
/// transcript, or the transcript where it was not condensed.
pub open spec fn note_body(
    summary: Option<&str>,
    compressed: Option<&str>,
    segs: Seq<Segment>,
    names: Map<i32, String>,
) -> Seq<char> {
    (if inked_str(summary) {
        note_section("## Summary\n\n"@, summary->0@)
    } else {
        Seq::empty()
    }) + (if inked_str(compressed) {
        note_section("## Condensed transcript\n\n"@, compressed->0@)
    } else if segs.len() > 0 {
        "## Transcript\n\n"@ + note_lines(segs, names)
    } else {
        Seq::empty()
    })
}

/// There is something to write down.
pub open spec fn has_content(
    summary: Option<&str>,
    compressed: Option<&str>,
    segs: Seq<Segment>,
) -> bool {
    inked_str(summary) || inked_str(compressed) || segs.len() > 0
}

fn write_title(s: &Session) -> (r: String)
    ensures
        r@ == note_title(*s),
{
    match &s.title {
        Some(t) => {
            let x = trim(t);
            if x.as_str().unicode_len() > 0 {
                x
            } else {
                "Untitled".to_string()
            }
        },
        None => "Untitled".to_string(),
    }
}

fn write_length(secs: u64) -> (r: String)
    ensures
        r@ == length_text(secs as nat),
{
    let h: u64 = secs / 3600;
    let m: u64 = (secs % 3600) / 60;
    let s: u64 = secs % 60;
    if h > 0 {
        let mut r = write_u64(h);
        r.push_str("h ");
        r.push_str(&write_u64(m));
        r.push_str("m ");
        r.push_str(&write_u64(s));
        r.push_str("s");
        r
    } else if m > 0 {
        let mut r = write_u64(m);
        r.push_str("m ");
        r.push_str(&write_u64(s));
        r.push_str("s");
        r
    } else {
        let mut r = write_u64(s);
        r.push_str("s");
        r
    }
}

fn write_length_line(s: &Session) -> (r: String)
    ensures
        r@ == length_line(*s),
{
    match s.ended_at {
        Some(end) => if end > s.started_at {
            let mut r = "duration: \"".to_string();
            r.push_str(&write_length((end - s.started_at) / 1000));
            r.push_str("\"\n");
            r
        } else {
            String::new()
        },
        None => String::new(),
    }
}

fn write_head(s: &Session, date: &str) -> (r: String)
    ensures
        r@ == note_head(*s, date@),
{
    let title = write_title(s);
    let mut r = "---\n".to_string();
    r.push_str("title: \"");
    r.push_str(&replace_char(&title, '"', "\\\""));
    r.push_str("\"\n");
    r.push_str("date: ");
    r.push_str(date);
    r.push_str("\n");
    r.push_str(&write_length_line(s));
    r.push_str("session_id: \"");
    r.push_str(&s.id);
    r.push_str("\"\n");
    r.push_str("---\n\n");
    r.push_str("# ");
    r.push_str(&title);
    r.push_str("\n\n");
    r
}

fn write_lines(segs: &[Segment], names: &HashMap<i32, String>) -> (r: String)
    requires
        forall|i: int| 0 <= i < segs@.len() ==> nameable(#[trigger] segs@[i], names@),
    ensures
        r@ == note_lines(segs@, names@),
{
    let mut r = String::new();
    let mut i: usize = 0;
    while i < segs.len()
        invariant
            i <= segs@.len(),
            forall|k: int| 0 <= k < segs@.len() ==> nameable(#[trigger] segs@[k], names@),
            r@ == note_lines(segs@.take(i as int), names@),
        decreases segs@.len() - i,
    {
        assert(segs@.take(i + 1).drop_last() =~= segs@.take(i as int));
        let mut l = "**".to_string();
        l.push_str(&speaker_label(&segs[i], names));
        l.push_str("**: ");
        l.push_str(&trim(&segs[i].text));
        l.push_str("\n\n");
        r.push_str(&l);
        i += 1;
    }
    assert(segs@.take(i as int) =~= segs@);
    r
}

fn write_body(
    summary: Option<&str>,
    compressed: Option<&str>,
    segs: &[Segment],
    names: &HashMap<i32, String>,
) -> (r: String)
    requires
        !inked_str(compressed) ==> forall|i: int|
            0 <= i < segs@.len() ==> nameable(#[trigger] segs@[i], names@),
    ensures
        r@ == note_body(summary, compressed, segs@, names@),
{
    let mut r = String::new();
    if inked(summary) {
        if let Some(s) = summary {
            let mut x = "## Summary\n\n".to_string();
            x.push_str(&trim(s));
            x.push_str("\n\n");
            r.push_str(&x);
        }
    }
    let ghost first = r@;
    let mut second = String::new();
    if inked(compressed) {
        if let Some(c) = compressed {
            second.push_str("## Condensed transcript\n\n");
            second.push_str(&trim(c));
            second.push_str("\n\n");
            assert(second@ =~= note_section("## Condensed transcript\n\n"@, c@));
        }
    } else if segs.len() > 0 {
        second.push_str("## Transcript\n\n");
        second.push_str(&write_lines(segs, names));
        assert(second@ =~= "## Transcript\n\n"@ + note_lines(segs@, names@));
    }
    r.push_str(&second);
    proof {
        if inked_str(summary) {
            assert(first =~= note_section("## Summary\n\n"@, summary->0@));
        } else {
            assert(first =~= Seq::<char>::empty());
        }
    }
    r
}

/// Renders a session as a Markdown note with this date; nothing for a session
/// without content.
pub fn kb_render_on(
    date: &str,
    session: &Session,
    summary: Option<&str>,
    compressed: Option<&str>,
    segments: &[Segment],
    names: &HashMap<i32, String>,
) -> (r: Option<String>)
    requires
        !inked_str(compressed) ==> forall|i: int|
            0 <= i < segments@.len() ==> nameable(#[trigger] segments@[i], names@),
    ensures
        match r {
            Some(t) => has_content(summary, compressed, segments@) && t@ == note_head(
                *session,
                date@,
            ) + note_body(summary, compressed, segments@, names@),
            None => !has_content(summary, compressed, segments@),
        },
{
    if !(inked(summary) || inked(compressed) || segments.len() > 0) {
        return None;
    }
    let mut r = write_head(session, date);
    r.push_str(&write_body(summary, compressed, segments, names));
    Some(r)
}

/// Renders a session as a Markdown note: a metadata header, the summary, and the
/// condensed transcript or the transcript. Nothing for a session without
/// content.
pub fn kb_render_session_markdown(
    session: &Session,
    summary: Option<&str>,
    compressed: Option<&str>,
    segments: &[Segment],
    names: &HashMap<i32, String>,
) -> (r: Option<String>)
    requires
        !inked_str(compressed) ==> forall|i: int|
            0 <= i < segments@.len() ==> nameable(#[trigger] segments@[i], names@),
    ensures
        match r {
            Some(t) => has_content(summary, compressed, segments@) && exists|date: Seq<char>|
             #[trigger]
                is_iso_date(session.started_at, "unknown"@, date) && t@ == note_head(
                    *session,
                    date,
                ) + note_body(summary, compressed, segments@, names@),
            None => !has_content(summary, compressed, segments@),
        },
{
    let date = iso_date_or(session.started_at, "unknown");
    kb_render_on(&date, session, summary, compressed, segments, names)
}

// ---------------------------------------------------------------------------
// Files
// ---------------------------------------------------------------------------

/// A file has to be written: a directory is set and the file does not hold the text
/// yet.
pub open spec fn write_wanted(dir: Seq<char>, existing: Option<Seq<char>>, text: Seq<char>) -> bool {
    dir.len() > 0 && existing != Some(text)
}

/// Whether a file has to be written.
pub fn mirror_needed(dir: &str, existing: Option<&str>, text: &str) -> (r: bool)
    ensures
        r == write_wanted(dir@, opt_str(existing), text@),
{
    if dir.unicode_len() == 0 {
        return false;
    }
    match existing {
        Some(e) => !same(e, text),
        None => true,
    }
}

/// A file name carries the tag of a session.
pub open spec fn tagged(name: Seq<char>, id: Seq<char>) -> bool {
    finishes(name, tag_suffix(id))
}

fn write_suffix(session_id: &str) -> (r: String)
    ensures
        r@ == tag_suffix(session_id@),
{
    let mut r = "-".to_string();
    r.push_str(&kb_short_id(session_id));
    r.push_str(".md");
    r
}

/// The file to rename before a session is written: the first one with its tag
/// and another name.
pub open spec fn renames(names: Seq<String>, id: Seq<char>, base: Seq<char>, i: int) -> bool {
    &&& 0 <= i < names.len()
    &&& tagged(names[i]@, id) && names[i]@ != base
    &&& forall|k: int|
        0 <= k < i ==> !(tagged((#[trigger] names[k])@, id) && names[k]@ != base)
}

/// `r` is the place of the file to rename; `None` if there is none.
pub open spec fn rename_found(
    names: Seq<String>,
    id: Seq<char>,
    base: Seq<char>,
    r: Option<usize>,
) -> bool {
    match r {
        Some(i) => renames(names, id, base, i as int),
        None => forall|k: int|
            0 <= k < names.len() ==> !(tagged((#[trigger] names[k])@, id) && names[k]@ != base),
    }
}

/// Finds the file that a session was mirrored to under another name, among the
/// names in the directory.
pub fn file_to_rename(names: &Vec<String>, session_id: &str, base: &str) -> (r: Option<usize>)
    ensures
        rename_found(names@, session_id@, base@, r),
{
    let suffix = write_suffix(session_id);
    let mut i: usize = 0;
    while i < names.len()
        invariant
            i <= names@.len(),
            suffix@ == tag_suffix(session_id@),
            forall|k: int|
                0 <= k < i ==> !(tagged((#[trigger] names@[k])@, session_id@) && names@[k]@
                    != base@),
        decreases names@.len() - i,
    {
        if ends_with(&names[i], &suffix) && !same(&names[i], base) {
            return Some(i);
        }
        i += 1;
    }
    None
}

/// The places of a session's files in a directory.
pub open spec fn tagged_places(names: Seq<String>, id: Seq<char>) -> Seq<usize>
    decreases names.len(),
{
    if names.len() == 0 {
        Seq::empty()
    } else {
        let p = tagged_places(names.drop_last(), id);
        if tagged(names.last()@, id) {
            p.push((names.len() - 1) as usize)
        } else {
            p
        }
    }
}

/// Finds the files of a deleted session, among the names in the directory.
pub fn files_to_remove(names: &Vec<String>, session_id: &str) -> (r: Vec<usize>)
    ensures
        r@ == tagged_places(names@, session_id@),
{
    let suffix = write_suffix(session_id);
    let mut r: Vec<usize> = Vec::new();
    let mut i: usize = 0;
    while i < names.len()
        invariant
            i <= names@.len(),
            suffix@ == tag_suffix(session_id@),
            r@ == tagged_places(names@.take(i as int), session_id@),
        decreases names@.len() - i,
    {
        assert(names@.take(i + 1).drop_last() =~= names@.take(i as int));
        if ends_with(&names[i], &suffix) {
            r.push(i);
        }
        i += 1;
    }
    assert(names@.take(i as int) =~= names@);
    r
}

/// The name of the file that a session is mirrored to.
pub fn mirror_name(session: &Session, date: &str) -> (r: String)
    ensures
        r@ == base_name(
            date@,
            match session.title {
                Some(t) => Some(t@),
                None => None,
            },
            session.id@,
        ),
{
    match &session.title {
        Some(t) => kb_base_name(date, Some(t.as_str()), &session.id),
        None => kb_base_name(date, None, &session.id),
    }
}

/// A mirrored session is found under its own name, so that a deletion removes
/// it; with its name unchanged there is nothing to rename.
pub proof fn mirrored_file_is_its_own(
    date: Seq<char>,
    title: Option<Seq<char>>,
    id: Seq<char>,
)
    ensures
        tagged(base_name(date, title, id), id),
{
    crate::kb::own_file_is_found(date, title, id);
}

/// A new title moves the file: the file under the old title is the one to
/// rename.
pub proof fn retitled_file_is_renamed(
    names: Seq<String>,
    date: Seq<char>,
    old_title: Option<Seq<char>>,
    new_title: Option<Seq<char>>,
    id: Seq<char>,
)
    requires
        names.len() == 1,
        names[0]@ == base_name(date, old_title, id),
        base_name(date, old_title, id) != base_name(date, new_title, id),
    ensures
        renames(names, id, base_name(date, new_title, id), 0),
{
    crate::kb::own_file_is_found(date, old_title, id);
}

/// The names list the files of a folder. A folder is the text of each of its files,
/// by name.
pub open spec fn lists(names: Seq<String>, folder: Map<Seq<char>, Seq<char>>) -> bool {
    &&& forall|i: int| 0 <= i < names.len() ==> folder.contains_key(#[trigger] names[i]@)
    &&& forall|k: Seq<char>| #[trigger]
        folder.contains_key(k) ==> exists|i: int| 0 <= i < names.len() && names[i]@ == k
}

/// The folder after the file at `place` was renamed; a file that had the new name is
/// replaced.
pub open spec fn moved(
    folder: Map<Seq<char>, Seq<char>>,
    names: Seq<String>,
    place: Option<usize>,
    base: Seq<char>,
) -> Map<Seq<char>, Seq<char>> {
    match place {
        Some(i) => folder.remove(names[i as int]@).insert(base, folder[names[i as int]@]),
        None => folder,
    }
}

/// The folder after a session was mirrored: the file at `place` is renamed, and the
/// text is written where it is wanted.
pub open spec fn mirrored(
    folder: Map<Seq<char>, Seq<char>>,
    names: Seq<String>,
    place: Option<usize>,
    base: Seq<char>,
    dir: Seq<char>,
    text: Seq<char>,
) -> Map<Seq<char>, Seq<char>> {
    let f = moved(folder, names, place, base);
    let existing = if f.contains_key(base) {
        Some(f[base])
    } else {
        None
    };
    if write_wanted(dir, existing, text) {
        f.insert(base, text)
    } else {
        f
    }
}

/// The folder holds exactly one file of a session, under this name and with this
/// text.
pub open spec fn one_file(
    folder: Map<Seq<char>, Seq<char>>,
    id: Seq<char>,
    base: Seq<char>,
    text: Seq<char>,
) -> bool {
    &&& folder.contains_key(base) && folder[base] == text && tagged(base, id)
    &&& forall|k: Seq<char>| #[trigger] folder.contains_key(k) && tagged(k, id) ==> k == base
}

/// The files without the tag of a session are the same in both folders.
pub open spec fn others_kept(
    before: Map<Seq<char>, Seq<char>>,
    after: Map<Seq<char>, Seq<char>>,
    id: Seq<char>,
) -> bool {
    forall|k: Seq<char>|
        #![trigger after.contains_key(k)]
        #![trigger before.contains_key(k)]
        !tagged(k, id) ==> before.contains_key(k) == after.contains_key(k) && (before.contains_key(
            k,
        ) ==> before[k] == after[k])
}

/// A folder with at most one file of a session holds exactly one after the session
/// was mirrored, whatever the file was called: under the session's name, with its
/// text. The files of other sessions stay.
pub proof fn one_file_is_left(
    folder: Map<Seq<char>, Seq<char>>,
    names: Seq<String>,
    place: Option<usize>,
    dir: Seq<char>,
    date: Seq<char>,
    title: Option<Seq<char>>,
    id: Seq<char>,
    text: Seq<char>,
)
    requires
        dir.len() > 0,
        lists(names, folder),
        forall|a: Seq<char>, b: Seq<char>|
            #![trigger folder.contains_key(a), folder.contains_key(b)]
            folder.contains_key(a) && folder.contains_key(b) && tagged(a, id) && tagged(b, id) ==> a
                == b,
        rename_found(names, id, base_name(date, title, id), place),
    ensures
        one_file(
            mirrored(folder, names, place, base_name(date, title, id), dir, text),
            id,
            base_name(date, title, id),
            text,
        ),
        others_kept(
            folder,
            mirrored(folder, names, place, base_name(date, title, id), dir, text),
            id,
        ),
{
    let base = base_name(date, title, id);
    crate::kb::own_file_is_found(date, title, id);
    let f = mirrored(folder, names, place, base, dir, text);
    match place {
        Some(i) => {
            assert(folder.contains_key(names[i as int]@));
        },
        None => {},
    }
    assert forall|k: Seq<char>| #[trigger] f.contains_key(k) && tagged(k, id) implies k == base by {
        if k != base {
            assert(folder.contains_key(k));
            let j = choose|j: int| 0 <= j < names.len() && names[j]@ == k;
            assert(tagged(names[j]@, id) && names[j]@ != base);
        }
    }
}

/// A new title moves the file: a session without a file, mirrored under one title
/// and then under another, has exactly one file, under the new title and with the
/// new text.
pub proof fn new_titles_leave_one_file(
    folder: Map<Seq<char>, Seq<char>>,
    names: Seq<String>,
    place: Option<usize>,
    later_names: Seq<String>,
    later_place: Option<usize>,
    dir: Seq<char>,
    date: Seq<char>,
    old_title: Option<Seq<char>>,
    new_title: Option<Seq<char>>,
    id: Seq<char>,
    old_text: Seq<char>,
    new_text: Seq<char>,
)
    requires
        dir.len() > 0,
        lists(names, folder),
        forall|k: Seq<char>| #[trigger] folder.contains_key(k) ==> !tagged(k, id),
        rename_found(names, id, base_name(date, old_title, id), place),
        lists(
            later_names,
            mirrored(folder, names, place, base_name(date, old_title, id), dir, old_text),
        ),
        rename_found(later_names, id, base_name(date, new_title, id), later_place),
    ensures
        ({
            let first = mirrored(
                folder,
                names,
                place,
                base_name(date, old_title, id),
                dir,
                old_text,
            );
            let base = base_name(date, new_title, id);
            let last = mirrored(first, later_names, later_place, base, dir, new_text);
            &&& one_file(first, id, base_name(date, old_title, id), old_text)
            &&& one_file(last, id, base, new_text)
            &&& finishes(base, tag_suffix(id))
            &&& base_name(date, old_title, id) != base ==> !last.contains_key(
                base_name(date, old_title, id),
            )
            &&& others_kept(folder, last, id)
        }),
{
    one_file_is_left(folder, names, place, dir, date, old_title, id, old_text);
    let first = mirrored(folder, names, place, base_name(date, old_title, id), dir, old_text);
    one_file_is_left(
        first,
        later_names,
        later_place,
        dir,
        date,
        new_title,
        id,
        new_text,
    );
}

// ---------------------------------------------------------------------------
// What a note says
// ---------------------------------------------------------------------------

/// The transcript of a note has the lines in order, none left out: two parts follow
/// each other, and one line is its speaker in bold, a colon, its trimmed text and an
/// empty line.
pub proof fn note_lines_follow_the_transcript(
    a: Seq<Segment>,
    b: Seq<Segment>,
    x: Segment,
    names: Map<i32, String>,
)
    ensures
        note_lines(Seq::empty(), names).len() == 0,
        note_lines(seq![x], names) == "**"@ + speaker_of(x, names) + "**: "@ + trimmed(x.text@)
            + "\n\n"@,
        note_lines(a + b, names) == note_lines(a, names) + note_lines(b, names),
    decreases b.len(),
{
    let one = seq![x];
    assert(one.drop_last() =~= Seq::empty());
    assert(note_lines(one.drop_last(), names) =~= Seq::<char>::empty());
    assert(note_lines(one, names) =~= "**"@ + speaker_of(x, names) + "**: "@ + trimmed(x.text@)
        + "\n\n"@);
    if b.len() == 0 {
        assert(a + b =~= a);
        assert(note_lines(a, names) + note_lines(b, names) =~= note_lines(a, names));
    } else {
        assert((a + b).drop_last() =~= a + b.drop_last());
        note_lines_follow_the_transcript(a, b.drop_last(), x, names);
        assert(note_lines(a + b, names) =~= note_lines(a, names) + note_lines(b, names));
    }
}

/// A note has its sections in order: the summary, then the condensed transcript; the
/// full transcript stands only where none was condensed. Each section says its text,
/// trimmed, under its heading.
pub proof fn notes_say_what_there_is(
    summary: Option<&str>,
    compressed: Option<&str>,
    segs: Seq<Segment>,
    names: Map<i32, String>,
)
    ensures
        note_body(summary, compressed, segs, names) == note_body(
            summary,
            None,
            Seq::empty(),
            names,
        ) + note_body(None, compressed, segs, names),
        summary matches Some(s) && !is_blank(s@) ==> note_body(summary, None, Seq::empty(), names)
            == "## Summary\n\n"@ + trimmed(summary->0@) + "\n\n"@,
        (summary is None || is_blank(summary->0@)) ==> note_body(
            summary,
            compressed,
            segs,
            names,
        ) == note_body(None, compressed, segs, names),
        compressed matches Some(c) && !is_blank(c@) ==> note_body(None, compressed, segs, names)
            == "## Condensed transcript\n\n"@ + trimmed(compressed->0@) + "\n\n"@,
        (compressed is None || is_blank(compressed->0@)) && segs.len() > 0 ==> note_body(
            None,
            compressed,
            segs,
            names,
        ) == "## Transcript\n\n"@ + note_lines(segs, names),
        note_body(None, None, Seq::empty(), names).len() == 0,
        has_content(summary, compressed, segs) <==> {
            ||| summary matches Some(s) && !is_blank(s@)
            ||| compressed matches Some(c) && !is_blank(c@)
            ||| segs.len() > 0
        },
{
    assert(note_body(summary, compressed, segs, names) =~= note_body(
        summary,
        None,
        Seq::empty(),
        names,
    ) + note_body(None, compressed, segs, names));
    if inked_str(summary) {
        assert(note_body(summary, None, Seq::empty(), names) =~= "## Summary\n\n"@ + trimmed(
            summary->0@,
        ) + "\n\n"@);
    }
    if inked_str(compressed) {
        assert(note_body(None, compressed, segs, names) =~= "## Condensed transcript\n\n"@
            + trimmed(compressed->0@) + "\n\n"@);
    } else if segs.len() > 0 {
        assert(note_body(None, compressed, segs, names) =~= "## Transcript\n\n"@ + note_lines(
            segs,
            names,
        ));
    }
}

/// The files of a session in a folder are exactly those with its tag, in list order.
pub proof fn tagged_files_are_found(names: Seq<String>, id: Seq<char>)
    requires
        names.len() <= usize::MAX,
    ensures
        forall|p: usize| #[trigger]
            tagged_places(names, id).contains(p) <==> p < names.len() && finishes(
                names[p as int]@,
                "-"@ + crate::kb::tag_of(id) + ".md"@,
            ),
        forall|i: int, j: int|
            #![trigger tagged_places(names, id)[i], tagged_places(names, id)[j]]
            0 <= i < j < tagged_places(names, id).len() ==> tagged_places(names, id)[i]
                < tagged_places(names, id)[j],
    decreases names.len(),
{
    let r = tagged_places(names, id);
    if names.len() > 0 {
        let h = names.drop_last();
        let p = tagged_places(h, id);
        tagged_files_are_found(h, id);
        let last = (names.len() - 1) as usize;
        assert forall|q: usize| #[trigger] r.contains(q) <==> q < names.len() && finishes(
            names[q as int]@,
            "-"@ + crate::kb::tag_of(id) + ".md"@,
        ) by {
            assert(p.contains(q) <==> q < h.len() && finishes(
                h[q as int]@,
                "-"@ + crate::kb::tag_of(id) + ".md"@,
            ));
            if p.contains(q) {
                let k = choose|k: int| 0 <= k < p.len() && p[k] == q;
                assert(r[k] == q);
            }
            if r.contains(q) && !p.contains(q) {
                let k = choose|k: int| 0 <= k < r.len() && r[k] == q;
                if k < p.len() {
                    assert(p[k] == q);
                }
            }
            if q == last && tagged(names.last()@, id) {
                assert(r[r.len() - 1] == q);
            }
        }
        assert forall|i: int, j: int| #![trigger r[i], r[j]] 0 <= i < j < r.len() implies r[i]
            < r[j] by {
            if j < p.len() {
                assert(p[i] < p[j]);
            } else {
                assert(p[i] == r[i]);
                assert(p.contains(p[i]));
            }
        }
    } else {
        assert(r =~= Seq::empty());
    }
}

/// A length says its hours, minutes and seconds, which make up the whole; units before
/// the first that counts are left out.
pub proof fn lengths_say_their_units(h: nat, m: nat, s: nat)
    requires
        m < 60,
        s < 60,
    ensures
        h > 0 ==> length_text(h * 3600 + m * 60 + s) == decimal(h) + "h "@ + decimal(m) + "m "@
            + decimal(s) + "s"@,
        h == 0 && m > 0 ==> length_text(m * 60 + s) == decimal(m) + "m "@ + decimal(s) + "s"@,
        h == 0 && m == 0 ==> length_text(s) == decimal(s) + "s"@,
{
    let n = h * 3600 + m * 60 + s;
    assert(n / 3600 == h && n % 3600 == m * 60 + s) by (nonlinear_arith)
        requires
            n == h * 3600 + m * 60 + s,
            m < 60,
            s < 60,
    ;
    assert((m * 60 + s) / 60 == m && (m * 60 + s) % 60 == s);
    assert(n % 60 == s) by (nonlinear_arith)
        requires
            n == h * 3600 + m * 60 + s,
            s < 60,
    ;
}

/// A session that ended after it began has a line with its length in whole seconds; one
/// that runs, or has no length, has none.
pub proof fn ended_sessions_show_their_length(s: Session)
    ensures
        s.ended_at matches Some(end) && end > s.started_at ==> length_line(s) == "duration: \""@
            + length_text(((s.ended_at->0 - s.started_at) / 1000) as nat) + "\"\n"@,
        (s.ended_at is None || s.ended_at->0 <= s.started_at) ==> length_line(s).len() == 0,
{
}

/// The head of a note names the session: its title in the front matter, with quotation
/// marks escaped, and as the heading; its date and its id. A blank title reads
/// "Untitled".
pub proof fn note_heads_name_the_session(s: Session, date: Seq<char>)
    ensures
        s.title matches Some(t) && trimmed(t@).len() > 0 ==> note_title(s) == trimmed(s.title->0@),
        (s.title is None || trimmed(s.title->0@).len() == 0) ==> note_title(s) == "Untitled"@,
        note_head(s, date) == ("---\ntitle: \""@ + replaced(note_title(s), '"', "\\\""@)) + ("\"\ndate: "@
            + date) + ("\n"@ + length_line(s)) + ("session_id: \""@ + s.id@) + ("\"\n---\n\n# "@
            + note_title(s)) + "\n\n"@,
{
    reveal_strlit("---\n");
    reveal_strlit("title: \"");
    reveal_strlit("---\ntitle: \"");
    reveal_strlit("\"\n");
    reveal_strlit("date: ");
    reveal_strlit("\"\ndate: ");
    reveal_strlit("---\n\n");
    reveal_strlit("# ");
    reveal_strlit("\"\n---\n\n# ");
    assert("---\ntitle: \""@ =~= "---\n"@ + "title: \""@);
    assert("\"\ndate: "@ =~= "\"\n"@ + "date: "@);
    assert("\"\n---\n\n# "@ =~= "\"\n"@ + "---\n\n"@ + "# "@);
    assert(note_head(s, date) =~= ("---\ntitle: \""@ + replaced(note_title(s), '"', "\\\""@)) + (
    "\"\ndate: "@ + date) + ("\n"@ + length_line(s)) + ("session_id: \""@ + s.id@) + (
    "\"\n---\n\n# "@ + note_title(s)) + "\n\n"@);
}

/// A file is written exactly if a folder is set and the file does not hold the text
/// already; writing it once is enough.
pub proof fn notes_are_written_once(dir: Seq<char>, text: Seq<char>, old: Seq<char>)
    ensures
        dir.len() > 0 ==> write_wanted(dir, None, text),
        dir.len() > 0 && old != text ==> write_wanted(dir, Some(old), text),
        !write_wanted(dir, Some(text), text),
        dir.len() == 0 ==> !write_wanted(dir, None, text) && !write_wanted(dir, Some(old), text),
{
}

} // verus!
