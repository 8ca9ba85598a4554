//! The registry of cancellable background jobs.
//!
//! Beginning a job hands out a ticket; the job looks its ticket up now and then
//! and stops when it was cancelled. Cancelling is cooperative.

use crate::model::Event;
use vstd::prelude::*;

verus! {

struct Entry {
    id: String,
    ticket: usize,
}

/// Running jobs by id, and the cancel mark of every ticket.
pub struct Jobs {
    entries: Vec<Entry>,
    raised: Vec<bool>,
}

/// What a [`Jobs`] holds.
#[verifier::ext_equal]
pub struct JobsView {
    /// The ticket of every running job.
    pub running: Map<Seq<char>, nat>,
    /// Whether a ticket was cancelled.
    pub raised: Seq<bool>,
}

impl JobsView {
    /// No job has run yet.
    pub open spec fn none() -> JobsView {
        JobsView { running: Map::empty(), raised: Seq::empty() }
    }

    /// Every running job has a ticket that was handed out.
    pub open spec fn wf(self) -> bool {
        forall|id: Seq<char>| #[trigger]
            self.running.contains_key(id) ==> self.running[id] < self.raised.len()
    }

    /// The registry after a job began; a job of the same id gives way to it.
    pub open spec fn begun(self, id: Seq<char>) -> JobsView {
        JobsView {
            running: self.running.insert(id, self.raised.len()),
            raised: self.raised.push(false),
        }
    }

    /// The registry after a job ended.
    pub open spec fn ended(self, id: Seq<char>) -> JobsView {
        JobsView { running: self.running.remove(id), ..self }
    }

    /// The registry after a job was cancelled; without a running job of that id
    /// nothing happens.
    pub open spec fn cancelled(self, id: Seq<char>) -> JobsView {
        if self.running.contains_key(id) {
            JobsView { raised: self.raised.update(self.running[id] as int, true), ..self }
        } else {
            self
        }
    }
}

spec fn running_of(entries: Seq<Entry>) -> Map<Seq<char>, nat>
    decreases entries.len(),
{
    if entries.len() == 0 {
        Map::empty()
    } else {
        running_of(entries.drop_last()).insert(
            entries.last().id@,
            entries.last().ticket as nat,
        )
    }
}

spec fn distinct(entries: Seq<Entry>) -> bool {
    forall|i: int, j: int|
        #![trigger entries[i], entries[j]]
        0 <= i < j < entries.len() ==> entries[i].id@ != entries[j].id@
}

proof fn lemma_running(entries: Seq<Entry>)
    requires
        distinct(entries),
    ensures
        forall|i: int|
            0 <= i < entries.len() ==> running_of(entries).contains_key(
                (#[trigger] entries[i]).id@,
            ) && running_of(entries)[entries[i].id@] == entries[i].ticket,
        forall|id: Seq<char>| #[trigger]
            running_of(entries).contains_key(id) ==> exists|i: int|
                0 <= i < entries.len() && (#[trigger] entries[i]).id@ == id,
    decreases entries.len(),
{
    if entries.len() > 0 {
        let h = entries.drop_last();
        assert(distinct(h)) by {
            assert forall|i: int, j: int|
                #![trigger h[i], h[j]]
                0 <= i < j < h.len() implies h[i].id@ != h[j].id@ by {
                assert(entries[i].id@ != entries[j].id@);
            }
        }
        lemma_running(h);
        assert forall|i: int| 0 <= i < entries.len() implies running_of(entries).contains_key(
            (#[trigger] entries[i]).id@,
        ) && running_of(entries)[entries[i].id@] == entries[i].ticket by {
            if i < h.len() {
                assert(h[i] == entries[i]);
                assert(entries[i].id@ != entries[entries.len() - 1].id@);
            }
        }
        assert forall|id: Seq<char>| #[trigger]
            running_of(entries).contains_key(id) implies exists|i: int|
            0 <= i < entries.len() && (#[trigger] entries[i]).id@ == id by {
            if id != entries.last().id@ {
                assert(running_of(h).contains_key(id));
                let i = choose|i: int| 0 <= i < h.len() && (#[trigger] h[i]).id@ == id;
                assert(entries[i].id@ == id);
            } else {
                assert(entries[entries.len() - 1].id@ == id);
            }
        }
    }
}

proof fn lemma_absent(entries: Seq<Entry>, id: Seq<char>)
    requires
        forall|i: int| 0 <= i < entries.len() ==> (#[trigger] entries[i]).id@ != id,
    ensures
        !running_of(entries).contains_key(id),
    decreases entries.len(),
{
    if entries.len() > 0 {
        let h = entries.drop_last();
        assert forall|i: int| 0 <= i < h.len() implies (#[trigger] h[i]).id@ != id by {
            assert(entries[i].id@ != id);
        }
        lemma_absent(h, id);
        assert(entries[entries.len() - 1].id@ != id);
    }
}

proof fn lemma_remove(entries: Seq<Entry>, at: int)
    requires
        0 <= at < entries.len(),
        distinct(entries),
    ensures
        distinct(entries.remove(at)),
        running_of(entries.remove(at)) == running_of(entries).remove(entries[at].id@),
        forall|i: int|
            0 <= i < entries.len() - 1 ==> (#[trigger] entries.remove(at)[i]).id@
                != entries[at].id@,
    decreases entries.len(),
{
    let t = entries.remove(at);
    let id = entries[at].id@;
    assert(forall|i: int|
        0 <= i < t.len() ==> #[trigger] t[i] == (if i < at {
            entries[i]
        } else {
            entries[i + 1]
        }));
    assert forall|i: int| 0 <= i < t.len() implies (#[trigger] t[i]).id@ != id by {
        let k = if i < at {
            i
        } else {
            i + 1
        };
        assert(t[i] == entries[k]);
        assert(entries[k].id@ != entries[at].id@);
    }
    assert(distinct(t)) by {
        assert forall|i: int, j: int|
            #![trigger t[i], t[j]]
            0 <= i < j < t.len() implies t[i].id@ != t[j].id@ by {
            let a = if i < at {
                i
            } else {
                i + 1
            };
            let b = if j < at {
                j
            } else {
                j + 1
            };
            assert(t[i] == entries[a] && t[j] == entries[b]);
        }
    }
    let h = entries.drop_last();
    if at == entries.len() - 1 {
        assert(t =~= h);
        assert forall|i: int| 0 <= i < h.len() implies (#[trigger] h[i]).id@ != id by {
            assert(t[i].id@ != id);
        }
        lemma_absent(h, id);
        assert(running_of(entries).remove(id) =~= running_of(h));
    } else {
        assert(distinct(h)) by {
            assert forall|i: int, j: int|
                #![trigger h[i], h[j]]
                0 <= i < j < h.len() implies h[i].id@ != h[j].id@ by {
                assert(entries[i].id@ != entries[j].id@);
            }
        }
        lemma_remove(h, at);
        assert(t.drop_last() =~= h.remove(at));
        assert(t.last() == entries.last());
        assert(h[at].id@ == id);
        assert(entries[entries.len() - 1].id@ != id);
        assert(running_of(t) =~= running_of(entries).remove(id));
    }
}

impl View for Jobs {
    type V = JobsView;

    closed spec fn view(&self) -> JobsView {
        JobsView { running: running_of(self.entries@), raised: self.raised@ }
    }
}

proof fn lemma_wf(j: Jobs)
    requires
        j.valid(),
    ensures
        j@.wf(),
{
    lemma_running(j.entries@);
    assert forall|id: Seq<char>| #[trigger] j@.running.contains_key(id) implies j@.running[id]
        < j@.raised.len() by {
        let i = choose|i: int| 0 <= i < j.entries@.len() && (#[trigger] j.entries@[i]).id@ == id;
        assert(j.entries@[i].ticket < j.raised@.len());
    }
}

impl Jobs {
    #[verifier::type_invariant]
    spec fn valid(self) -> bool {
        &&& distinct(self.entries@)
        &&& forall|i: int|
            0 <= i < self.entries@.len() ==> (#[trigger] self.entries@[i]).ticket
                < self.raised@.len()
    }

    /// An empty registry.
    pub fn new() -> (r: Jobs)
        ensures
            r@ == JobsView::none(),
            r@.wf(),
    {
        Jobs { entries: Vec::new(), raised: Vec::new() }
    }

    fn place(&self, id: &str) -> (r: Option<usize>)
        ensures
            match r {
                Some(i) => i < self.entries@.len() && self.entries@[i as int].id@ == id@
                    && self@.running.contains_key(id@) && self@.running[id@]
                    == self.entries@[i as int].ticket,
                None => !self@.running.contains_key(id@) && forall|i: int|
                    0 <= i < self.entries@.len() ==> (#[trigger] self.entries@[i]).id@ != id@,
            },
    {
        proof {
            use_type_invariant(self);
            lemma_running(self.entries@);
        }
        let mut i: usize = 0;
        while i < self.entries.len()
            invariant
                i <= self.entries@.len(),
                forall|k: int| 0 <= k < i ==> (#[trigger] self.entries@[k]).id@ != id@,
                forall|k: int|
                    0 <= k < self.entries@.len() ==> running_of(self.entries@).contains_key(
                        (#[trigger] self.entries@[k]).id@,
                    ) && running_of(self.entries@)[self.entries@[k].id@]
                        == self.entries@[k].ticket,
            decreases self.entries@.len() - i,
        {
            if crate::text::same(&self.entries[i].id, id) {
                return Some(i);
            }
            i += 1;
        }
        proof {
            lemma_absent(self.entries@, id@);
        }
        None
    }

    /// Registers a job and announces it; gives out its ticket.
    pub fn begin(&mut self, id: &str, kind: &str, label: &str) -> (r: (usize, Event))
        ensures
            final(self)@ == old(self)@.begun(id@),
            final(self)@.wf(),
            r.0 == old(self)@.raised.len(),
            r.1 matches Event::JobStarted { id: i, kind: k, label: l } && i@ == id@ && k@ == kind@
                && l@ == label@,
    {
        proof {
            use_type_invariant(&*self);
        }
        let mut entries: Vec<Entry> = Vec::new();
        let mut raised: Vec<bool> = Vec::new();
        let found = self.place(id);
        std::mem::swap(&mut entries, &mut self.entries);
        std::mem::swap(&mut raised, &mut self.raised);
        let ghost before = entries@;
        let ticket: usize = raised.len();
        if let Some(i) = found {
            proof {
                lemma_remove(entries@, i as int);
            }
            let _ = entries.remove(i);
            assert(entries@ =~= before.remove(i as int));
        }
        let ghost kept = entries@;
        proof {
            assert(forall|k: int|
                0 <= k < kept.len() ==> (#[trigger] kept[k]).id@ != id@ && kept[k].ticket < ticket)
            by {
                if let Some(i) = found {
                    assert forall|k: int| 0 <= k < kept.len() implies (#[trigger] kept[k]).id@
                        != id@ && kept[k].ticket < ticket by {
                        let m = if k < i {
                            k
                        } else {
                            k + 1
                        };
                        assert(kept[k] == before[m]);
                        assert(before.remove(i as int)[k].id@ != id@);
                    }
                }
            }
        }
        entries.push(Entry { id: id.to_string(), ticket });
        raised.push(false);
        proof {
            let t = entries@;
            assert(t.drop_last() =~= kept);
            assert(distinct(t)) by {
                assert forall|i: int, j: int|
                    #![trigger t[i], t[j]]
                    0 <= i < j < t.len() implies t[i].id@ != t[j].id@ by {
                    assert(t[i] == kept[i]);
                    if j < kept.len() {
                        assert(t[j] == kept[j]);
                    }
                }
            }
            assert forall|i: int| 0 <= i < t.len() implies (#[trigger] t[i]).ticket
                < raised@.len() by {
                if i < kept.len() {
                    assert(t[i] == kept[i]);
                }
            }
            assert(running_of(t) =~= running_of(before).insert(id@, ticket as nat));
        }
        *self = Jobs { entries, raised };
        proof {
            lemma_wf(*self);
        }
        (
            ticket,
            Event::JobStarted {
                id: id.to_string(),
                kind: kind.to_string(),
                label: label.to_string(),
            },
        )
    }

    /// Takes a job off the registry and announces its end; ending it again
    /// changes nothing.
    pub fn end(&mut self, id: &str) -> (r: Event)
        ensures
            final(self)@ == old(self)@.ended(id@),
            final(self)@.wf(),
            r matches Event::JobFinished { id: i } && i@ == id@,
    {
        proof {
            use_type_invariant(&*self);
        }
        match self.place(id) {
            Some(i) => {
                let mut entries: Vec<Entry> = Vec::new();
                let mut raised: Vec<bool> = Vec::new();
                std::mem::swap(&mut entries, &mut self.entries);
                std::mem::swap(&mut raised, &mut self.raised);
                let ghost before = entries@;
                proof {
                    lemma_remove(entries@, i as int);
                }
                let _ = entries.remove(i);
                proof {
                    assert(entries@ =~= before.remove(i as int));
                    assert forall|k: int| 0 <= k < entries@.len() implies (
                    #[trigger] entries@[k]).ticket < raised@.len() by {
                        let m = if k < i {
                            k
                        } else {
                            k + 1
                        };
                        assert(entries@[k] == before[m]);
                    }
                }
                *self = Jobs { entries, raised };
            },
            None => {
                assert(self@.running.remove(id@) =~= self@.running);
            },
        }
        proof {
            use_type_invariant(&*self);
            lemma_wf(*self);
        }
        Event::JobFinished { id: id.to_string() }
    }

    /// Asks a running job to stop; a job that is over is left alone.
    pub fn cancel(&mut self, id: &str)
        ensures
            final(self)@ == old(self)@.cancelled(id@),
            final(self)@.wf(),
    {
        proof {
            use_type_invariant(&*self);
        }
        if let Some(i) = self.place(id) {
            let mut entries: Vec<Entry> = Vec::new();
            let mut raised: Vec<bool> = Vec::new();
            let ticket: usize = self.entries[i].ticket;
            std::mem::swap(&mut entries, &mut self.entries);
            std::mem::swap(&mut raised, &mut self.raised);
            raised.set(ticket, true);
            *self = Jobs { entries, raised };
        }
        proof {
            use_type_invariant(&*self);
            lemma_wf(*self);
        }
    }

    /// Whether a job with this id runs.
    pub fn is_running(&self, id: &str) -> (r: bool)
        ensures
            r == self@.running.contains_key(id@),
    {
        self.place(id).is_some()
    }

    /// Whether the job with this ticket was asked to stop.
    pub fn cancelled(&self, ticket: usize) -> (r: bool)
        requires
            ticket < self@.raised.len(),
        ensures
            r == self@.raised[ticket as int],
    {
        self.raised[ticket]
    }
}

/// Cancelling a running job reaches its ticket and no other.
pub proof fn cancel_reaches_the_job(j: JobsView, id: Seq<char>)
    requires
        j.wf(),
        j.running.contains_key(id),
    ensures
        j.cancelled(id).raised[j.running[id] as int],
        forall|t: int|
            0 <= t < j.raised.len() && t != j.running[id] ==> #[trigger] j.cancelled(
                id,
            ).raised[t] == j.raised[t],
        j.cancelled(id).running == j.running,
{
}

/// A job that is over can no longer be cancelled.
pub proof fn finished_jobs_stay_untouched(j: JobsView, id: Seq<char>)
    ensures
        j.ended(id).cancelled(id) == j.ended(id),
{
}

/// Ending a job twice is ending it once.
pub proof fn end_is_idempotent(j: JobsView, id: Seq<char>)
    ensures
        j.ended(id).ended(id) == j.ended(id),
        !j.ended(id).running.contains_key(id),
{
    assert(j.ended(id).ended(id).running =~= j.ended(id).running);
}

/// A job begins uncancelled, whatever became of an earlier job of the same id,
/// and cancelling it leaves the earlier job's ticket as it is.
pub proof fn a_new_job_starts_fresh(j: JobsView, id: Seq<char>)
    requires
        j.wf(),
    ensures
        j.begun(id).wf(),
        j.begun(id).running.contains_key(id),
        !j.begun(id).raised[j.begun(id).running[id] as int],
        forall|t: int|
            0 <= t < j.raised.len() ==> #[trigger] j.begun(id).cancelled(id).raised[t]
                == j.raised[t],
{
}

/// Jobs of different ids do not meet.
pub proof fn jobs_are_independent(j: JobsView, a: Seq<char>, b: Seq<char>)
    requires
        a != b,
    ensures
        j.begun(a).running.contains_key(b) == j.running.contains_key(b),
        j.ended(a).running.contains_key(b) == j.running.contains_key(b),
        j.running.contains_key(b) ==> j.begun(a).running[b] == j.running[b] && j.ended(
            a,
        ).running[b] == j.running[b],
{
}

} // verus!
