//! The list of sessions: which rows it shows, how they are selected, and what
//! stands at its foot.

use crate::actions::recording;
#[allow(unused_imports)]
use crate::actions::is_recording;
#[allow(unused_imports)]
use crate::find::{absent, first_place, range_ids, rows_between};
use crate::labels::{capture_sources, date_group, session_title, DateGroup};
#[allow(unused_imports)]
use crate::labels::{captured, group_of, title_of};
use crate::model::{DbCmd, Features, Session};
#[allow(unused_imports)]
use crate::number::{decimal, write_u64};
#[allow(unused_imports)]
use crate::pattern::{contains, occurs};
use crate::settings::Settings;
#[allow(unused_imports)]
use crate::text::{blank, is_blank, lower, same, to_lower, trim, trimmed};
use crate::ui::{Outgoing, UiState};
#[allow(unused_imports)]
use crate::ui::{ShelfView, UiView};
use vstd::prelude::*;

verus! {

// ---------------------------------------------------------------------------
// Rows
// ---------------------------------------------------------------------------

/// A session has a row: it is not the running recording, and its title has the
/// filter text in it, whatever the case.
pub open spec fn has_row(s: Session, live: Option<String>, filter: Seq<char>) -> bool {
    &&& !(live matches Some(id) && id@ == s.id@)
    &&& occurs(lower(title_of(s)), lower(filter))
}

/// The sessions that have a row, in list order.
pub open spec fn rows(sessions: Seq<Session>, live: Option<String>, filter: Seq<char>) -> Seq<
    Session,
> {
    sessions.filter(|s: Session| has_row(s, live, filter))
}

/// The date group of a session.
pub open spec fn group_at(s: Session, now: u64) -> DateGroup {
    group_of(now as int / 86_400_000 - s.started_at as int / 86_400_000)
}

/// The heading above row `i`: the first row of each run of one date group has
/// one.
pub open spec fn heading_at(r: Seq<Session>, now: u64, i: int) -> Option<DateGroup> {
    if i > 0 && group_at(r[i - 1], now) == group_at(r[i], now) {
        None
    } else {
        Some(group_at(r[i], now))
    }
}

fn shows_row(s: &Session, live: &Option<String>, q: &String, Ghost(f): Ghost<Seq<char>>) -> (r:
    bool)
    requires
        q@ == lower(f),
    ensures
        r == has_row(*s, *live, f),
{
    let is_live = match live {
        Some(id) => *id == s.id,
        None => false,
    };
    !is_live && contains(&to_lower(&session_title(s)), q)
}

/// The rows of the list, each with the heading above it.
pub fn sidebar_rows(
    sessions: &Vec<Session>,
    live: &Option<String>,
    filter: &str,
    now: u64,
) -> (r: Vec<(Option<DateGroup>, Session)>)
    ensures
        r@.len() == rows(sessions@, *live, filter@).len(),
        forall|i: int|
            0 <= i < r@.len() ==> (#[trigger] r@[i]).1 == rows(sessions@, *live, filter@)[i]
                && r@[i].0 == heading_at(rows(sessions@, *live, filter@), now, i),
{
    let ghost p = |s: Session| has_row(s, *live, filter@);
    let q = to_lower(filter);
    let mut r: Vec<(Option<DateGroup>, Session)> = Vec::new();
    let mut last: Option<DateGroup> = None;
    let mut i: usize = 0;
    assert(sessions@.take(0).filter(p) =~= Seq::empty()) by {
        reveal(Seq::filter);
    }
    while i < sessions.len()
        invariant
            i <= sessions@.len(),
            q@ == lower(filter@),
            p == (|s: Session| has_row(s, *live, filter@)),
            r@.len() == sessions@.take(i as int).filter(p).len(),
            forall|k: int|
                0 <= k < r@.len() ==> (#[trigger] r@[k]).1 == sessions@.take(i as int).filter(
                    p,
                )[k] && r@[k].0 == heading_at(sessions@.take(i as int).filter(p), now, k),
            last == (if r@.len() == 0 {
                None
            } else {
                Some(group_at(r@.last().1, now))
            }),
        decreases sessions@.len() - i,
    {
        let ghost before = sessions@.take(i as int).filter(p);
        let ghost after = sessions@.take(i + 1).filter(p);
        proof {
            reveal(Seq::filter);
            assert(sessions@.take(i + 1).drop_last() =~= sessions@.take(i as int));
            assert(sessions@.take(i + 1).last() == sessions@[i as int]);
        }
        if shows_row(&sessions[i], live, &q, Ghost(filter@)) {
            let g = date_group(sessions[i].started_at, now);
            let heading = match last {
                Some(x) => if x == g {
                    None
                } else {
                    Some(g)
                },
                None => Some(g),
            };
            last = Some(g);
            let ghost was = r@;
            r.push((heading, sessions[i].copy()));
            proof {
                assert(after =~= before.push(sessions@[i as int]));
                assert forall|k: int| 0 <= k < r@.len() implies (#[trigger] r@[k]).1 == after[k]
                    && r@[k].0 == heading_at(after, now, k) by {
                    if k < was.len() {
                        assert(r@[k] == was[k]);
                    } else if k > 0 {
                        assert(after[k - 1] == was[k - 1].1);
                    }
                }
            }
        }
        i += 1;
    }
    assert(sessions@.take(i as int) =~= sessions@);
    r
}

/// The running recording has no row of its own among the saved sessions.
pub proof fn live_recording_is_not_listed(
    sessions: Seq<Session>,
    live: String,
    filter: Seq<char>,
)
    ensures
        forall|i: int|
            0 <= i < rows(sessions, Some(live), filter).len() ==> (#[trigger] rows(
                sessions,
                Some(live),
                filter,
            )[i]).id@ != live@,
{
    let p = |s: Session| has_row(s, Some(live), filter);
    broadcast use vstd::seq_lib::group_filter_ensures;
}

/// What the list says when it has no rows.
pub fn empty_text(sessions: &Vec<Session>) -> (r: &'static str)
    ensures
        r@ == (if sessions@.len() == 0 {
            "No recordings yet."@
        } else {
            "No matching sessions."@
        }),
{
    if sessions.len() == 0 {
        "No recordings yet."
    } else {
        "No matching sessions."
    }
}

/// The style class of a row.
pub fn row_style(active: bool, selected: bool) -> (r: &'static str)
    ensures
        r@ == (match (active, selected) {
            (true, true) => "session active selected"@,
            (true, false) => "session active"@,
            (false, true) => "session selected"@,
            (false, false) => "session"@,
        }),
{
    match (active, selected) {
        (true, true) => "session active selected",
        (true, false) => "session active",
        (false, true) => "session selected",
        (false, false) => "session",
    }
}

/// The command for a title typed into a row; a blank title renames nothing.
pub fn rename_command(id: &String, typed: &str) -> (r: Option<DbCmd>)
    ensures
        match r {
            Some(cmd) => {
                &&& trimmed(typed@).len() > 0
                &&& cmd matches DbCmd::Rename { id: x, title }
                &&& x == *id
                &&& title@ == trimmed(typed@)
            },
            None => trimmed(typed@).len() == 0,
        },
{
    let t = trim(typed);
    if t.as_str().unicode_len() == 0 {
        None
    } else {
        Some(DbCmd::Rename { id: id.clone(), title: t })
    }
}

// ---------------------------------------------------------------------------
// Selection
// ---------------------------------------------------------------------------

/// An id is in a list.
pub open spec fn in_ids(ids: Seq<String>, id: Seq<char>) -> bool {
    exists|i: int| 0 <= i < ids.len() && (#[trigger] ids[i])@ == id
}

/// No id stands twice.
pub open spec fn once_each(ids: Seq<String>) -> bool {
    forall|i: int, j: int|
        #![trigger ids[i], ids[j]]
        0 <= i < j < ids.len() ==> ids[i]@ != ids[j]@
}

/// The list with one id added, if it was not there.
pub open spec fn with_id(ids: Seq<String>, id: String) -> Seq<String> {
    if in_ids(ids, id@) {
        ids
    } else {
        ids.push(id)
    }
}

/// The list with several ids added.
pub open spec fn with_ids(ids: Seq<String>, more: Seq<String>) -> Seq<String>
    decreases more.len(),
{
    if more.len() == 0 {
        ids
    } else {
        with_id(with_ids(ids, more.drop_last()), more.last())
    }
}

/// The list without an id.
pub open spec fn without_id(ids: Seq<String>, id: Seq<char>) -> Seq<String> {
    ids.filter(|x: String| x@ != id)
}

/// How a row was clicked.
#[derive(Debug, Clone, Copy, PartialEq, Eq, Structural)]
pub enum Click {
    Plain,
    /// With the command or control key: add or remove one row.
    Toggle,
    /// With the shift key: add the rows from the last one clicked.
    Extend,
}

/// Reads the modifier keys of a click; the command and control keys win over
/// shift.
pub fn click_kind(command: bool, control: bool, shift: bool) -> (r: Click)
    ensures
        r == (if command || control {
            Click::Toggle
        } else if shift {
            Click::Extend
        } else {
            Click::Plain
        }),
{
    if command || control {
        Click::Toggle
    } else if shift {
        Click::Extend
    } else {
        Click::Plain
    }
}

/// Whether an id is in a list.
pub fn has_id(ids: &Vec<String>, id: &String) -> (r: bool)
    ensures
        r == in_ids(ids@, id@),
{
    let mut i: usize = 0;
    while i < ids.len()
        invariant
            i <= ids@.len(),
            forall|k: int| 0 <= k < i ==> (#[trigger] ids@[k])@ != id@,
        decreases ids@.len() - i,
    {
        if ids[i] == *id {
            return true;
        }
        i += 1;
    }
    false
}

fn remove_id(ids: &Vec<String>, id: &String) -> (r: Vec<String>)
    ensures
        r@ == without_id(ids@, id@),
{
    let ghost p = |x: String| x@ != id@;
    let mut r: Vec<String> = Vec::new();
    let mut i: usize = 0;
    assert(ids@.take(0).filter(p) =~= Seq::empty()) by {
        reveal(Seq::filter);
    }
    while i < ids.len()
        invariant
            i <= ids@.len(),
            p == (|x: String| x@ != id@),
            r@ == ids@.take(i as int).filter(p),
        decreases ids@.len() - i,
    {
        proof {
            reveal(Seq::filter);
            assert(ids@.take(i + 1).drop_last() =~= ids@.take(i as int));
        }
        if ids[i] != *id {
            r.push(ids[i].clone());
        }
        i += 1;
    }
    assert(ids@.take(i as int) =~= ids@);
    r
}

fn add_ids(ids: &mut Vec<String>, more: &Vec<String>)
    ensures
        final(ids)@ == with_ids(old(ids)@, more@),
{
    let mut i: usize = 0;
    while i < more.len()
        invariant
            i <= more@.len(),
            ids@ == with_ids(old(ids)@, more@.take(i as int)),
        decreases more@.len() - i,
    {
        assert(more@.take(i + 1).drop_last() =~= more@.take(i as int));
        if !has_id(ids, &more[i]) {
            ids.push(more[i].clone());
        }
        i += 1;
    }
    assert(more@.take(i as int) =~= more@);
}

/// The rows that a shift-click adds: those from the anchor to the clicked row,
/// or the clicked row alone when there is no anchor.
pub open spec fn extends_by(
    anchor: Option<String>,
    ordered: Seq<String>,
    id: String,
    range: Seq<String>,
) -> bool {
    match anchor {
        None => range == seq![id],
        Some(a) => {
            &&& absent(ordered, a@) || absent(ordered, id@) ==> range.len() == 0
            &&& forall|x: int, y: int|
                first_place(ordered, a@, x) && first_place(ordered, id@, y) ==> range
                    == #[trigger] rows_between(ordered, x, y)
        },
    }
}

impl UiState {
    /// A row of the list was clicked. `ordered` holds the ids of all rows, from
    /// the top.
    pub fn click_row(&mut self, id: String, click: Click, ordered: &Vec<String>) -> (out: Vec<
        Outgoing,
    >)
        ensures
            click == Click::Toggle ==> out@.len() == 0 && final(self)@ == (UiView {
                shelf: ShelfView {
                    selected_sessions: if in_ids(old(self).shelf.selected_sessions@, id@) {
                        without_id(old(self).shelf.selected_sessions@, id@)
                    } else {
                        old(self).shelf.selected_sessions@.push(id)
                    },
                    select_anchor: Some(id),
                    ..old(self)@.shelf
                },
                ..old(self)@
            }),
            click == Click::Extend ==> out@.len() == 0 && exists|range: Seq<String>| #[trigger]
                extends_by(old(self).shelf.select_anchor, ordered@, id, range) && final(self)@ == (
                UiView {
                    shelf: ShelfView {
                        selected_sessions: with_ids(old(self).shelf.selected_sessions@, range),
                        select_anchor: Some(id),
                        ..old(self)@.shelf
                    },
                    ..old(self)@
                }),
            click == Click::Plain ==> {
                let s = old(self)@;
                let t = if s.shelf.selected_sessions.len() == 0 {
                    s
                } else {
                    UiView {
                        shelf: ShelfView {
                            selected_sessions: Seq::empty(),
                            select_anchor: None,
                            ..s.shelf
                        },
                        ..s
                    }
                };
                &&& final(self)@ == (UiView {
                    screen: crate::ui::Screen::Session(id),
                    pane: t.pane.for_session(),
                    line: t.line.emptied(),
                    talk: crate::ui::ChatPaneView::none(),
                    ..t
                })
                &&& out@ == s.line.closing() + seq![
                    Outgoing::Play(crate::model::PlayCmd::Stop),
                    Outgoing::Db(DbCmd::Load(id)),
                ]
            },
    {
        match click {
            Click::Toggle => {
                if has_id(&self.shelf.selected_sessions, &id) {
                    self.shelf.selected_sessions = remove_id(&self.shelf.selected_sessions, &id);
                } else {
                    self.shelf.selected_sessions.push(id.clone());
                }
                self.shelf.select_anchor = Some(id);
                Vec::new()
            },
            Click::Extend => {
                let range = match &self.shelf.select_anchor {
                    Some(a) => range_ids(ordered.as_slice(), a, &id),
                    None => {
                        let mut v: Vec<String> = Vec::new();
                        v.push(id.clone());
                        assert(v@ =~= seq![id]);
                        v
                    },
                };
                assert(extends_by(old(self).shelf.select_anchor, ordered@, id, range@));
                add_ids(&mut self.shelf.selected_sessions, &range);
                self.shelf.select_anchor = Some(id);
                Vec::new()
            },
            Click::Plain => {
                if self.shelf.selected_sessions.len() > 0 {
                    self.clear_selection();
                }
                self.open_session(id)
            },
        }
    }

    /// Clears the selection.
    pub fn clear_selection(&mut self)
        ensures
            final(self)@ == (UiView {
                shelf: ShelfView {
                    selected_sessions: Seq::empty(),
                    select_anchor: None,
                    ..old(self)@.shelf
                },
                ..old(self)@
            }),
    {
        self.shelf.selected_sessions = Vec::new();
        self.shelf.select_anchor = None;
    }
}

proof fn lemma_push_once(ids: Seq<String>, id: String)
    requires
        once_each(ids),
        !in_ids(ids, id@),
    ensures
        once_each(ids.push(id)),
{
    let t = ids.push(id);
    assert forall|i: int, j: int|
        #![trigger t[i], t[j]]
        0 <= i < j < t.len() implies t[i]@ != t[j]@ by {
        assert(t[i] == ids[i]);
        if j < ids.len() {
            assert(t[j] == ids[j]);
        }
    }
}

proof fn lemma_without(ids: Seq<String>, id: Seq<char>)
    ensures
        once_each(ids) ==> once_each(without_id(ids, id)),
        forall|x: Seq<char>| #[trigger] in_ids(without_id(ids, id), x) <==> in_ids(ids, x) && x != id,
    decreases ids.len(),
{
    reveal(Seq::filter);
    let r = without_id(ids, id);
    if ids.len() > 0 {
        let h = ids.drop_last();
        let p = without_id(h, id);
        lemma_without(h, id);
        assert forall|x: Seq<char>| #[trigger] in_ids(r, x) <==> in_ids(ids, x) && x != id by {
            assert(in_ids(p, x) <==> in_ids(h, x) && x != id);
            if in_ids(ids, x) {
                let k = choose|k: int| 0 <= k < ids.len() && (#[trigger] ids[k])@ == x;
                if k < h.len() {
                    assert(h[k]@ == x);
                }
            }
            if in_ids(h, x) {
                let k = choose|k: int| 0 <= k < h.len() && (#[trigger] h[k])@ == x;
                assert(ids[k]@ == x);
            }
            if in_ids(p, x) {
                let k = choose|k: int| 0 <= k < p.len() && (#[trigger] p[k])@ == x;
                assert(r[k]@ == x);
            }
            if in_ids(r, x) {
                let k = choose|k: int| 0 <= k < r.len() && (#[trigger] r[k])@ == x;
                if k < p.len() {
                    assert(p[k]@ == x);
                } else {
                    assert(ids[ids.len() - 1]@ == x);
                }
            }
            if x != id && ids.last()@ == x {
                assert(r[r.len() - 1]@ == x);
            }
        }
        if once_each(ids) {
            assert(once_each(h)) by {
                assert forall|i: int, j: int|
                    #![trigger h[i], h[j]]
                    0 <= i < j < h.len() implies h[i]@ != h[j]@ by {
                    assert(ids[i]@ != ids[j]@);
                }
            }
            if ids.last()@ != id {
                if in_ids(p, ids.last()@) {
                    assert(in_ids(h, ids.last()@));
                    let k = choose|k: int|
                        0 <= k < h.len() && (#[trigger] h[k])@ == ids.last()@;
                    assert(ids[k]@ != ids[ids.len() - 1]@);
                }
                lemma_push_once(p, ids.last());
            }
        }
    }
}

proof fn lemma_with_ids(ids: Seq<String>, more: Seq<String>)
    ensures
        once_each(ids) ==> once_each(with_ids(ids, more)),
        forall|x: Seq<char>| #[trigger]
            in_ids(with_ids(ids, more), x) <==> in_ids(ids, x) || in_ids(more, x),
    decreases more.len(),
{
    if more.len() > 0 {
        let h = more.drop_last();
        let p = with_ids(ids, h);
        let r = with_ids(ids, more);
        lemma_with_ids(ids, h);
        if once_each(ids) && !in_ids(p, more.last()@) {
            lemma_push_once(p, more.last());
        }
        assert forall|x: Seq<char>| #[trigger] in_ids(r, x) <==> in_ids(ids, x) || in_ids(more, x) by {
            assert(in_ids(p, x) <==> in_ids(ids, x) || in_ids(h, x));
            if in_ids(h, x) {
                let k = choose|k: int| 0 <= k < h.len() && (#[trigger] h[k])@ == x;
                assert(more[k]@ == x);
            }
            if in_ids(more, x) {
                let k = choose|k: int| 0 <= k < more.len() && (#[trigger] more[k])@ == x;
                if k < h.len() {
                    assert(h[k]@ == x);
                }
            }
            if in_ids(p, x) {
                let k = choose|k: int| 0 <= k < p.len() && (#[trigger] p[k])@ == x;
                assert(r[k]@ == x);
            }
            if !in_ids(p, more.last()@) {
                assert(r[r.len() - 1]@ == more.last()@);
            }
            if in_ids(r, x) {
                let k = choose|k: int| 0 <= k < r.len() && (#[trigger] r[k])@ == x;
                if k < p.len() {
                    assert(p[k]@ == x);
                } else {
                    assert(more[more.len() - 1]@ == x);
                }
            }
        }
    }
}

/// Selecting keeps every id once, and adds and removes exactly what it should.
pub proof fn selection_is_a_set(ids: Seq<String>, id: String, more: Seq<String>)
    requires
        once_each(ids),
    ensures
        once_each(without_id(ids, id@)),
        once_each(with_ids(ids, more)),
        !in_ids(ids, id@) ==> once_each(ids.push(id)),
        forall|x: Seq<char>| #[trigger]
            in_ids(without_id(ids, id@), x) <==> in_ids(ids, x) && x != id@,
        forall|x: Seq<char>| #[trigger]
            in_ids(with_ids(ids, more), x) <==> in_ids(ids, x) || in_ids(more, x),
{
    lemma_without(ids, id@);
    lemma_with_ids(ids, more);
    if !in_ids(ids, id@) {
        lemma_push_once(ids, id);
    }
}

/// Toggling a row that is not selected, twice, gives the selection back.
pub proof fn toggling_twice_restores(ids: Seq<String>, id: String)
    requires
        !in_ids(ids, id@),
    ensures
        in_ids(ids.push(id), id@),
        without_id(ids.push(id), id@) == ids,
{
    assert(ids.push(id)[ids.len() as int]@ == id@);
    lemma_nothing_to_remove(ids, id@);
    reveal(Seq::filter);
    assert(ids.push(id).drop_last() =~= ids);
}

proof fn lemma_nothing_to_remove(ids: Seq<String>, id: Seq<char>)
    requires
        !in_ids(ids, id),
    ensures
        without_id(ids, id) == ids,
    decreases ids.len(),
{
    reveal(Seq::filter);
    if ids.len() > 0 {
        let h = ids.drop_last();
        assert(!in_ids(h, id)) by {
            if in_ids(h, id) {
                let k = choose|k: int| 0 <= k < h.len() && (#[trigger] h[k])@ == id;
                assert(ids[k]@ == id);
            }
        }
        lemma_nothing_to_remove(h, id);
        assert(ids[ids.len() - 1]@ != id);
        assert(h.push(ids.last()) =~= ids);
    } else {
        assert(ids =~= Seq::empty());
    }
}

// ---------------------------------------------------------------------------
// Foot of the list
// ---------------------------------------------------------------------------

/// What stands at the foot of the list beside the record button.
#[derive(Debug, Clone, Copy)]
pub struct SidebarFoot {
    /// The choice of one application to record.
    pub app_picker: bool,
    pub mute_system: bool,
    pub mute_mic: bool,
    pub record_discord: bool,
}

/// The button that records a voice chat is offered.
pub open spec fn offers_discord(s: Settings, features: Features) -> bool {
    &&& features.discord
    &&& s.discord_bot_token@.len() > 0
    &&& !is_blank(s.discord_user_id@)
    &&& s.discord_record_button
}

impl UiState {
    /// What stands at the foot of the list: the capture choice while idle, the
    /// mute buttons of the captured channels while recording this machine.
    pub fn sidebar_foot(&self, features: Features) -> (r: SidebarFoot)
        ensures
            ({
                let on = is_recording(self.rec.status);
                let (mic, system) = captured(self.setup.settings.capture_mode@);
                let local = !self.rec.recording_discord;
                &&& r.app_picker == (!on && system && local)
                &&& r.mute_system == (on && system && local)
                &&& r.mute_mic == (on && mic && local)
                &&& r.record_discord == (!on && offers_discord(self.setup.settings, features))
            }),
    {
        let on = recording(&self.rec.status);
        let (mic, system) = capture_sources(&self.setup.settings.capture_mode);
        let local = !self.rec.recording_discord;
        let s = &self.setup.settings;
        let discord = features.discord && s.discord_bot_token.as_str().unicode_len() > 0
            && !blank(&s.discord_user_id) && s.discord_record_button;
        SidebarFoot {
            app_picker: !on && system && local,
            mute_system: on && system && local,
            mute_mic: on && mic && local,
            record_discord: !on && discord,
        }
    }
}

/// The name of an application by its id; empty if it is unknown.
pub open spec fn app_name(apps: Seq<(String, String)>, id: Seq<char>) -> Seq<char>
    decreases apps.len(),
{
    if apps.len() == 0 {
        Seq::empty()
    } else if apps[0].0@ == id {
        apps[0].1@
    } else {
        app_name(apps.skip(1), id)
    }
}

/// Finds the name of an application by its id.
pub(crate) fn find_app(apps: &Vec<(String, String)>, id: &str) -> (r: String)
    ensures
        r@ == app_name(apps@, id@),
{
    let mut i: usize = 0;
    assert(apps@.skip(0) =~= apps@);
    while i < apps.len()
        invariant
            i <= apps@.len(),
            app_name(apps@, id@) == app_name(apps@.skip(i as int), id@),
        decreases apps@.len() - i,
    {
        assert(apps@.skip(i as int).skip(1) =~= apps@.skip(i + 1));
        if same(&apps[i].0, id) {
            return apps[i].1.clone();
        }
        i += 1;
    }
    String::new()
}

/// The four settings that the capture choice concerns.
pub struct CaptureChoice {
    pub app_id: Seq<char>,
    pub app_name: Seq<char>,
    pub mode: Seq<char>,
    pub mode_before: Seq<char>,
}

/// The capture choice in the settings.
pub open spec fn choice_of(s: Settings) -> CaptureChoice {
    CaptureChoice {
        app_id: s.capture_app_id@,
        app_name: s.capture_app_name@,
        mode: s.capture_mode@,
        mode_before: s.capture_mode_before_app@,
    }
}

/// The capture choice after an application (or, with an empty id, all system
/// audio) was picked. Leaving the per-app capture goes back to the mode before
/// it.
pub open spec fn picked_choice(c: CaptureChoice, id: Seq<char>, name: Seq<char>) -> CaptureChoice {
    if id.len() == 0 {
        CaptureChoice {
            app_id: Seq::empty(),
            app_name: Seq::empty(),
            mode: if c.mode == "app"@ {
                c.mode_before
            } else {
                c.mode
            },
            ..c
        }
    } else {
        CaptureChoice {
            app_id: id,
            app_name: name,
            mode: "app"@,
            mode_before: if c.mode == "app"@ {
                c.mode_before
            } else {
                c.mode
            },
        }
    }
}

impl Settings {
    /// Picks the application to record, or all system audio with an empty id.
    pub fn pick_capture_app(&mut self, id: String, apps: &Vec<(String, String)>)
        ensures
            choice_of(*final(self)) == picked_choice(
                choice_of(*old(self)),
                id@,
                app_name(apps@, id@),
            ),
            *final(self) == (Settings {
                capture_app_id: final(self).capture_app_id,
                capture_app_name: final(self).capture_app_name,
                capture_mode: final(self).capture_mode,
                capture_mode_before_app: final(self).capture_mode_before_app,
                ..*old(self)
            }),
    {
        let in_app = same(&self.capture_mode, "app");
        if id.as_str().unicode_len() == 0 {
            self.capture_app_id = String::new();
            self.capture_app_name = String::new();
            if in_app {
                self.capture_mode = self.capture_mode_before_app.clone();
            }
        } else {
            self.capture_app_name = find_app(apps, id.as_str());
            self.capture_app_id = id;
            if !in_app {
                self.capture_mode_before_app = self.capture_mode.clone();
            }
            self.capture_mode = "app".to_string();
        }
    }
}

/// Picking applications and then all system audio gives the first mode back,
/// so that a choice of system audio alone is never turned into both channels.
pub proof fn leaving_app_capture_restores_mode(
    c: CaptureChoice,
    id: Seq<char>,
    name: Seq<char>,
    id2: Seq<char>,
    name2: Seq<char>,
    empty: Seq<char>,
    none: Seq<char>,
)
    requires
        c.mode != "app"@,
        id.len() > 0,
        id2.len() > 0,
        empty.len() == 0,
    ensures
        picked_choice(picked_choice(c, id, name), empty, none).mode == c.mode,
        picked_choice(
            picked_choice(picked_choice(c, id, name), id2, name2),
            empty,
            none,
        ).mode == c.mode,
{
}

// ---------------------------------------------------------------------------
// Splitter
// ---------------------------------------------------------------------------

/// Width of the icon rail, left of the sidebar.
pub const RAIL_WIDTH: u32 = 56;

/// A width that the sidebar can have.
pub open spec fn sidebar_width_of(px: int) -> int {
    if px < 160 {
        160
    } else if px > 480 {
        480
    } else {
        px
    }
}

/// The width of the sidebar at start: the saved one, within its bounds.
pub fn saved_width(px: u32) -> (r: u32)
    ensures
        r == sidebar_width_of(px as int),
{
    if px < 160 {
        160
    } else if px > 480 {
        480
    } else {
        px
    }
}

/// The splitter of the sidebar.
#[derive(Debug, Clone, Copy, PartialEq, Eq, Structural)]
pub struct Splitter {
    pub width: u32,
    pub dragging: bool,
}

impl Splitter {
    /// The splitter at start.
    pub fn new(saved: u32) -> (r: Splitter)
        ensures
            r == (Splitter { width: sidebar_width_of(saved as int) as u32, dragging: false }),
    {
        Splitter { width: saved_width(saved), dragging: false }
    }

    /// The button went down on the splitter.
    pub fn press(&mut self)
        ensures
            *final(self) == (Splitter { dragging: true, ..*old(self) }),
    {
        self.dragging = true;
    }

    /// The pointer moved to this distance from the left edge of the window.
    pub fn moved(&mut self, x: u32)
        ensures
            *final(self) == (if old(self).dragging {
                Splitter { width: sidebar_width_of(x - RAIL_WIDTH) as u32, ..*old(self) }
            } else {
                *old(self)
            }),
    {
        if self.dragging {
            self.width = saved_width(x.saturating_sub(RAIL_WIDTH));
        }
    }

    /// The button went up, or the pointer left the window. Gives the width to
    /// save, if there was a drag.
    pub fn release(&mut self) -> (r: Option<u32>)
        ensures
            r == (if old(self).dragging {
                Some(old(self).width)
            } else {
                None
            }),
            *final(self) == (Splitter { dragging: false, ..*old(self) }),
    {
        if self.dragging {
            self.dragging = false;
            Some(self.width)
        } else {
            None
        }
    }
}

// ---------------------------------------------------------------------------
// Deleting several sessions
// ---------------------------------------------------------------------------

/// So many sessions, in words.
pub open spec fn session_count(n: nat) -> Seq<char> {
    "Delete "@ + decimal(n) + " session"@ + (if n == 1 {
        ""@
    } else {
        "s"@
    })
}

/// What is asked before the selected sessions are deleted: the question, and what
/// it means.
pub fn bulk_delete_text(count: usize) -> (r: (String, String))
    ensures
        r.0@ == session_count(count as nat) + "?"@,
        r.1@ == session_count(count as nat) + " and their audio — cannot be undone."@,
{
    let mut question = "Delete ".to_string();
    question.push_str(&write_u64(count as u64));
    question.push_str(" session");
    question.push_str(
        if count == 1 {
            ""
        } else {
            "s"
        },
    );
    let mut note = question.clone();
    question.push_str("?");
    note.push_str(" and their audio — cannot be undone.");
    (question, note)
}

// ---------------------------------------------------------------------------
// What the list shows
// ---------------------------------------------------------------------------

/// The list has every session whose title holds the filter, whatever the case, but for
/// the one that is recorded, and it has no other. The order is kept: two parts of the
/// list are filtered one after the other. An empty filter hides nothing.
pub proof fn matching_sessions_are_listed(
    a: Seq<Session>,
    b: Seq<Session>,
    live: Option<String>,
    filter: Seq<char>,
    s: Session,
)
    ensures
        rows(a + b, live, filter) == rows(a, live, filter) + rows(b, live, filter),
        rows(a, live, filter).contains(s) <==> a.contains(s) && (live is None || live->0@ != s.id@)
            && occurs(lower(title_of(s)), lower(filter)),
        lower(filter).len() == 0 && live is None ==> rows(a, live, filter) == a,
{
    lemma_rows_split(a, b, live, filter);
    lemma_rows_has(a, live, filter, s);
    if lower(filter).len() == 0 && live is None {
        lemma_rows_all(a, filter);
    }
}

proof fn lemma_rows_split(
    a: Seq<Session>,
    b: Seq<Session>,
    live: Option<String>,
    filter: Seq<char>,
)
    ensures
        rows(a + b, live, filter) == rows(a, live, filter) + rows(b, live, filter),
    decreases b.len(),
{
    reveal(Seq::filter);
    if b.len() == 0 {
        assert(a + b =~= a);
        assert(rows(a, live, filter) + rows(b, live, filter) =~= rows(a, live, filter));
    } else {
        assert((a + b).drop_last() =~= a + b.drop_last());
        lemma_rows_split(a, b.drop_last(), live, filter);
        assert(rows(a + b, live, filter) =~= rows(a, live, filter) + rows(b, live, filter));
    }
}

proof fn lemma_rows_has(a: Seq<Session>, live: Option<String>, filter: Seq<char>, s: Session)
    ensures
        rows(a, live, filter).contains(s) <==> a.contains(s) && has_row(s, live, filter),
    decreases a.len(),
{
    reveal(Seq::filter);
    let r = rows(a, live, filter);
    if a.len() > 0 {
        let h = a.drop_last();
        let p = rows(h, live, filter);
        lemma_rows_has(h, live, filter, s);
        if r.contains(s) {
            let k = choose|k: int| 0 <= k < r.len() && r[k] == s;
            if k < p.len() {
                assert(p[k] == s);
                let m = choose|m: int| 0 <= m < h.len() && h[m] == s;
                assert(a[m] == s);
            } else {
                assert(a[a.len() - 1] == s);
            }
        }
        if a.contains(s) && has_row(s, live, filter) {
            let m = choose|m: int| 0 <= m < a.len() && a[m] == s;
            if m < h.len() {
                assert(h[m] == s);
                let k = choose|k: int| 0 <= k < p.len() && p[k] == s;
                assert(r[k] == s);
            } else {
                assert(r[r.len() - 1] == s);
            }
        }
    } else {
        assert(r =~= Seq::empty());
    }
}

proof fn lemma_rows_all(a: Seq<Session>, filter: Seq<char>)
    requires
        lower(filter).len() == 0,
    ensures
        rows(a, None, filter) == a,
    decreases a.len(),
{
    reveal(Seq::filter);
    if a.len() > 0 {
        lemma_rows_all(a.drop_last(), filter);
        let t = lower(title_of(a.last()));
        assert(t.subrange(0, 0) =~= lower(filter));
        assert(crate::pattern::stands_at(t, lower(filter), 0));
        assert(a.drop_last().push(a.last()) =~= a);
    } else {
        assert(rows(a, None, filter) =~= a);
    }
}

/// A heading stands above a row exactly if the row begins a date group, and names the
/// group of the day on which the session began.
pub proof fn headings_begin_groups(r: Seq<Session>, now: u64, i: int)
    requires
        0 <= i < r.len(),
    ensures
        heading_at(r, now, 0) is Some,
        heading_at(r, now, i) matches Some(g) ==> g == group_of(
            now as int / 86_400_000 - r[i].started_at as int / 86_400_000,
        ),
        i > 0 ==> (heading_at(r, now, i) is None <==> group_of(
            now as int / 86_400_000 - r[i].started_at as int / 86_400_000,
        ) == group_of(now as int / 86_400_000 - r[i - 1].started_at as int / 86_400_000)),
{
}

/// The name of an application is that of the first entry with its id, and empty for an
/// id that is not listed.
pub proof fn apps_are_named_by_id(apps: Seq<(String, String)>, id: Seq<char>, i: int)
    ensures
        (forall|k: int| 0 <= k < apps.len() ==> (#[trigger] apps[k]).0@ != id) ==> app_name(
            apps,
            id,
        ).len() == 0,
        0 <= i < apps.len() && apps[i].0@ == id && (forall|k: int|
            0 <= k < i ==> (#[trigger] apps[k]).0@ != id) ==> app_name(apps, id) == apps[i].1@,
    decreases apps.len(),
{
    if apps.len() > 0 {
        let t = apps.skip(1);
        apps_are_named_by_id(t, id, i - 1);
        assert(forall|k: int| 0 <= k < t.len() ==> t[k] == apps[k + 1]);
        if forall|k: int| 0 <= k < apps.len() ==> (#[trigger] apps[k]).0@ != id {
            assert(apps[0].0@ != id);
            assert forall|k: int| 0 <= k < t.len() implies (#[trigger] t[k]).0@ != id by {
                assert(apps[k + 1].0@ != id);
            }
        }
        if 0 < i < apps.len() && apps[i].0@ == id && (forall|k: int|
            0 <= k < i ==> (#[trigger] apps[k]).0@ != id) {
            assert(apps[0].0@ != id);
            assert forall|k: int| 0 <= k < i - 1 implies (#[trigger] t[k]).0@ != id by {
                assert(apps[k + 1].0@ != id);
            }
        }
    }
}

/// Picking an application captures it: its id and name are stored and the mode is the
/// one for applications. Picking none stores none, and leaves a mode that was not the
/// one for applications as it was.
pub proof fn picks_are_stored(c: CaptureChoice, id: Seq<char>, name: Seq<char>)
    ensures
        id.len() > 0 ==> picked_choice(c, id, name).app_id == id && picked_choice(c, id, name).app_name
            == name && picked_choice(c, id, name).mode == "app"@,
        id.len() == 0 ==> picked_choice(c, id, name).app_id.len() == 0 && picked_choice(
            c,
            id,
            name,
        ).app_name.len() == 0,
        id.len() == 0 && c.mode != "app"@ ==> picked_choice(c, id, name).mode == c.mode,
        id.len() == 0 ==> picked_choice(c, id, name).mode_before == c.mode_before,
        id.len() > 0 && c.mode != "app"@ ==> picked_choice(c, id, name).mode_before == c.mode,
        id.len() > 0 && c.mode == "app"@ ==> picked_choice(c, id, name).mode_before
            == c.mode_before,
{
}

/// The width stays between its bounds, and a width between them is kept.
pub proof fn widths_stay_in_bounds(px: int)
    ensures
        160 <= sidebar_width_of(px) <= 480,
        160 <= px <= 480 ==> sidebar_width_of(px) == px,
        px <= 160 ==> sidebar_width_of(px) == 160,
        px >= 480 ==> sidebar_width_of(px) == 480,
{
}

/// The button for Discord needs the build, a token, a user and the setting, all four.
pub proof fn discord_needs_everything(s: Settings, f: Features)
    ensures
        offers_discord(s, f) ==> f.discord && s.discord_record_button,
        offers_discord(s, f) ==> s.discord_bot_token@.len() > 0,
        offers_discord(s, f) ==> !is_blank(s.discord_user_id@),
        f.discord && s.discord_record_button && s.discord_bot_token@.len() > 0 && !is_blank(
            s.discord_user_id@,
        ) ==> offers_discord(s, f),
{
}

/// New ids are added behind the old ones, which all stay in their places; an id that is
/// there is not added again.
pub proof fn selections_grow_behind(ids: Seq<String>, id: String)
    ensures
        in_ids(ids, id@) ==> with_id(ids, id) == ids,
        !in_ids(ids, id@) ==> with_id(ids, id) == ids + seq![id],
{
    assert(ids.push(id) =~= ids + seq![id]);
}

/// One session is said in the singular, several in the plural.
pub proof fn session_counts_agree(n: nat)
    ensures
        session_count(1) == "Delete 1 session"@,
        n != 1 ==> session_count(n) == "Delete "@ + decimal(n) + " sessions"@,
{
    reveal_strlit("Delete 1 session");
    reveal_strlit("Delete ");
    reveal_strlit(" session");
    reveal_strlit(" sessions");
    reveal_strlit("s");
    reveal_strlit("");
    assert(decimal(1) =~= seq!['1']);
    assert(session_count(1) =~= "Delete 1 session"@);
    assert(" sessions"@ =~= " session"@ + "s"@);
    if n != 1 {
        assert(session_count(n) =~= "Delete "@ + decimal(n) + " sessions"@);
    }
}

} // verus!
