//! The kept audio of a session: its tracks, its timeline, its compression and
//! clips cut from it.

use std::collections::HashMap;

use crate::labels::speaker_key;
#[allow(unused_imports)]
use crate::labels::keyed_speaker;
use crate::model::{AudioFiles, Segment, Session, Source, TimelineLane};
#[allow(unused_imports)]
use crate::model::AudioFilesView;
#[allow(unused_imports)]
use crate::number::{decimal, read_i32, signed, spelled, write_i64, write_u64};
#[allow(unused_imports)]
use crate::pattern::{after_prefix, before_suffix, begins, ends_with, finishes};
#[allow(unused_imports)]
use crate::text::same;
use crate::toolbar::insert_sorted;
#[allow(unused_imports)]
use crate::toolbar::rising;
use vstd::prelude::*;

verus! {

// ---------------------------------------------------------------------------
// Track files
// ---------------------------------------------------------------------------

/// The speaker number in the name of a track file: `spk-N.wav` or `spk-N.opus`.
pub open spec fn track_number(name: Seq<char>) -> Option<int> {
    if begins(name, "spk-"@) {
        let rest = name.skip(4);
        if finishes(rest, ".wav"@) {
            spelled(rest.take(rest.len() - 4), i32::MIN as int, i32::MAX as int)
        } else if finishes(rest, ".opus"@) {
            spelled(rest.take(rest.len() - 5), i32::MIN as int, i32::MAX as int)
        } else {
            None
        }
    } else {
        None
    }
}

/// The speaker number in the name of a track file.
pub fn track_index(name: &str) -> (r: Option<i32>)
    ensures
        match r {
            Some(n) => track_number(name@) == Some(n as int),
            None => track_number(name@) is None,
        },
{
    proof {
        reveal_strlit("spk-");
        reveal_strlit(".wav");
        reveal_strlit(".opus");
    }
    match after_prefix(name, "spk-") {
        Some(rest) => match before_suffix(&rest, ".wav") {
            Some(stem) => read_i32(&stem),
            None => match before_suffix(&rest, ".opus") {
                Some(stem) => read_i32(&stem),
                None => None,
            },
        },
        None => None,
    }
}

/// Some file of the directory is the track of this speaker.
pub open spec fn has_track(names: Seq<String>, n: i32) -> bool {
    exists|i: int| 0 <= i < names.len() && track_number((#[trigger] names[i])@) == Some(n as int)
}

/// The speakers that have a track in a directory, ascending, each once, even if
/// both forms of a file are there.
pub fn speaker_tracks(names: &Vec<String>) -> (r: Vec<i32>)
    ensures
        rising(r@),
        forall|n: i32| #[trigger] r@.contains(n) <==> has_track(names@, n),
{
    let mut r: Vec<i32> = Vec::new();
    let mut i: usize = 0;
    while i < names.len()
        invariant
            i <= names@.len(),
            rising(r@),
            forall|n: i32| #[trigger] r@.contains(n) <==> has_track(names@.take(i as int), n),
        decreases names@.len() - i,
    {
        let ghost a = names@.take(i as int);
        let ghost b = names@.take(i + 1);
        let found = track_index(&names[i]);
        let ghost was = r@;
        if let Some(n) = found {
            insert_sorted(&mut r, n);
        }
        proof {
            assert(b =~= a.push(names@[i as int]));
            assert forall|n: i32| #[trigger] r@.contains(n) <==> has_track(b, n) by {
                assert(was.contains(n) <==> has_track(a, n));
                if has_track(a, n) {
                    let k = choose|k: int|
                        0 <= k < a.len() && track_number((#[trigger] a[k])@) == Some(n as int);
                    assert(b[k] == a[k]);
                }
                if has_track(b, n) {
                    let k = choose|k: int|
                        0 <= k < b.len() && track_number((#[trigger] b[k])@) == Some(n as int);
                    if k < a.len() {
                        assert(a[k] == b[k]);
                    }
                }
                assert(b[i as int] == names@[i as int]);
            }
        }
        i += 1;
    }
    assert(names@.take(i as int) =~= names@);
    r
}

/// The suffix of a speaker's track.
pub open spec fn speaker_suffix(n: int) -> Seq<char> {
    "spk-"@ + signed(n)
}

/// The suffixes of all tracks that a session may have: the two channels, then
/// its speakers ascending.
pub fn track_suffixes(names: &Vec<String>) -> (r: Vec<String>)
    ensures
        r@.len() >= 2,
        r@[0]@ == "me"@,
        r@[1]@ == "others"@,
        exists|spk: Seq<i32>| #[trigger]
            rising(spk) && (forall|n: i32| spk.contains(n) <==> has_track(names@, n)) && r@.len()
                == spk.len() + 2 && forall|i: int|
                0 <= i < spk.len() ==> (#[trigger] r@[i + 2])@ == speaker_suffix(spk[i] as int),
{
    let spk = speaker_tracks(names);
    let mut r: Vec<String> = Vec::new();
    r.push("me".to_string());
    r.push("others".to_string());
    let mut i: usize = 0;
    while i < spk.len()
        invariant
            i <= spk@.len(),
            r@.len() == i + 2,
            r@[0]@ == "me"@,
            r@[1]@ == "others"@,
            forall|k: int|
                0 <= k < i ==> (#[trigger] r@[k + 2])@ == speaker_suffix(spk@[k] as int),
        decreases spk@.len() - i,
    {
        let mut s = "spk-".to_string();
        s.push_str(&write_i64(spk[i] as i64));
        let ghost was = r@;
        r.push(s);
        assert forall|k: int| 0 <= k < i + 1 implies (#[trigger] r@[k + 2])@ == speaker_suffix(
            spk@[k] as int,
        ) by {
            if k < i {
                assert(r@[k + 2] == was[k + 2]);
            }
        }
        i += 1;
    }
    r
}

/// The tracks whose file was found.
pub open spec fn found_tracks(suffixes: Seq<String>, paths: Seq<Option<String>>) -> Seq<
    (String, String),
>
    decreases suffixes.len(),
{
    if suffixes.len() == 0 {
        Seq::empty()
    } else {
        let p = found_tracks(suffixes.drop_last(), paths);
        match paths[suffixes.len() - 1] {
            Some(x) => p.push((suffixes.last(), x)),
            None => p,
        }
    }
}

/// Keeps the tracks whose file was found, in order. `paths` holds the file of
/// each suffix.
pub fn resolved_tracks(suffixes: &Vec<String>, paths: &Vec<Option<String>>) -> (r: Vec<
    (String, String),
>)
    requires
        paths@.len() == suffixes@.len(),
    ensures
        r@ == found_tracks(suffixes@, paths@),
{
    let mut r: Vec<(String, String)> = Vec::new();
    let mut i: usize = 0;
    while i < suffixes.len()
        invariant
            i <= suffixes@.len(),
            paths@.len() == suffixes@.len(),
            r@ == found_tracks(suffixes@.take(i as int), paths@),
        decreases suffixes@.len() - i,
    {
        assert(suffixes@.take(i + 1).drop_last() =~= suffixes@.take(i as int));
        if let Some(p) = &paths[i] {
            r.push((suffixes[i].clone(), p.clone()));
        }
        i += 1;
    }
    assert(suffixes@.take(i as int) =~= suffixes@);
    r
}

/// The audio files of a list of tracks.
pub open spec fn files_of(tracks: Seq<(String, String)>) -> AudioFilesView
    decreases tracks.len(),
{
    if tracks.len() == 0 {
        AudioFilesView::none()
    } else {
        let f = files_of(tracks.drop_last());
        let (suffix, path) = tracks.last();
        if suffix@ == "me"@ {
            AudioFilesView { me: Some(path), ..f }
        } else if suffix@ == "others"@ {
            AudioFilesView { others: Some(path), ..f }
        } else {
            match keyed_speaker(suffix@) {
                Some(n) => AudioFilesView { speakers: f.speakers.insert(n as i32, path), ..f },
                None => f,
            }
        }
    }
}

/// The audio files of a list of tracks.
pub fn session_audio_files(tracks: &Vec<(String, String)>) -> (r: AudioFiles)
    ensures
        r@ == files_of(tracks@),
{
    broadcast use vstd::std_specs::hash::group_hash_axioms;

    let mut me: Option<String> = None;
    let mut others: Option<String> = None;
    let mut speakers: HashMap<i32, String> = HashMap::new();
    let mut i: usize = 0;
    while i < tracks.len()
        invariant
            i <= tracks@.len(),
            (AudioFilesView { me, others, speakers: speakers@ }) == files_of(
                tracks@.take(i as int),
            ),
        decreases tracks@.len() - i,
    {
        broadcast use vstd::std_specs::hash::group_hash_axioms;

        assert(tracks@.take(i + 1).drop_last() =~= tracks@.take(i as int));
        let path = tracks[i].1.clone();
        if same(&tracks[i].0, "me") {
            me = Some(path);
        } else if same(&tracks[i].0, "others") {
            others = Some(path);
        } else if let Some(n) = speaker_key(&tracks[i].0) {
            let _ = speakers.insert(n, path);
        }
        i += 1;
    }
    assert(tracks@.take(i as int) =~= tracks@);
    AudioFiles { me, others, speakers }
}

/// The channel and the speaker of a track.
pub fn track_source(suffix: &str) -> (r: (Source, Option<i32>))
    ensures
        r.0 == (if suffix@ == "me"@ {
            Source::Me
        } else {
            Source::Others
        }),
        match r.1 {
            Some(n) => keyed_speaker(suffix@) == Some(n as int),
            None => keyed_speaker(suffix@) is None,
        },
{
    let source = if same(suffix, "me") {
        Source::Me
    } else {
        Source::Others
    };
    (source, speaker_key(suffix))
}

// ---------------------------------------------------------------------------
// Timeline
// ---------------------------------------------------------------------------

/// The sum of the sizes and times of the track files.
pub open spec fn file_sum(stats: Seq<(u64, u64)>) -> int
    decreases stats.len(),
{
    if stats.len() == 0 {
        0
    } else {
        file_sum(stats.drop_last()) + stats.last().0 + stats.last().1
    }
}

/// A fingerprint of the track files: sizes and modification times, summed up
/// modulo the range of the type.
pub fn fingerprint(stats: &Vec<(u64, u64)>) -> (r: u64)
    ensures
        r == file_sum(stats@) % 0x1_0000_0000_0000_0000,
{
    let mut sum: u64 = 0;
    let mut i: usize = 0;
    while i < stats.len()
        invariant
            i <= stats@.len(),
            sum == file_sum(stats@.take(i as int)) % 0x1_0000_0000_0000_0000,
        decreases stats@.len() - i,
    {
        assert(stats@.take(i + 1).drop_last() =~= stats@.take(i as int));
        let one: u64 = stats[i].0.wrapping_add(stats[i].1);
        sum = sum.wrapping_add(one);
        i += 1;
    }
    assert(stats@.take(i as int) =~= stats@);
    sum
}

struct CacheEntry {
    id: String,
    fingerprint: u64,
    lanes: Vec<TimelineLane>,
}

/// Timelines that were computed, by session; eight at most.
pub struct TimelineCache {
    entries: Vec<CacheEntry>,
}

/// How many timelines are kept.
pub const CACHE_CAP: usize = 8;

spec fn cache_of(entries: Seq<CacheEntry>) -> Map<Seq<char>, (u64, Seq<TimelineLane>)>
    decreases entries.len(),
{
    if entries.len() == 0 {
        Map::empty()
    } else {
        cache_of(entries.drop_last()).insert(
            entries.last().id@,
            (entries.last().fingerprint, entries.last().lanes@),
        )
    }
}

spec fn cache_distinct(entries: Seq<CacheEntry>) -> bool {
    forall|i: int, j: int|
        #![trigger entries[i], entries[j]]
        0 <= i < j < entries.len() ==> entries[i].id@ != entries[j].id@
}

proof fn lemma_cache(entries: Seq<CacheEntry>)
    requires
        cache_distinct(entries),
    ensures
        forall|i: int|
            0 <= i < entries.len() ==> cache_of(entries).contains_key((#[trigger] entries[i]).id@)
                && cache_of(entries)[entries[i].id@] == (
                entries[i].fingerprint,
                entries[i].lanes@,
            ),
        cache_of(entries).dom().len() == entries.len(),
        cache_of(entries).dom().finite(),
        forall|id: Seq<char>|
            (forall|i: int| 0 <= i < entries.len() ==> (#[trigger] entries[i]).id@ != id)
                ==> !#[trigger] cache_of(entries).contains_key(id),
    decreases entries.len(),
{
    if entries.len() > 0 {
        let h = entries.drop_last();
        assert(cache_distinct(h)) by {
            assert forall|i: int, j: int|
                #![trigger h[i], h[j]]
                0 <= i < j < h.len() implies h[i].id@ != h[j].id@ by {
                assert(entries[i].id@ != entries[j].id@);
            }
        }
        lemma_cache(h);
        let last = entries.last().id@;
        assert(!cache_of(h).contains_key(last)) by {
            assert forall|i: int| 0 <= i < h.len() implies (#[trigger] h[i]).id@ != last by {
                assert(entries[i].id@ != entries[entries.len() - 1].id@);
            }
        }
        assert forall|i: int| 0 <= i < entries.len() implies cache_of(entries).contains_key(
            (#[trigger] entries[i]).id@,
        ) && cache_of(entries)[entries[i].id@] == (
            entries[i].fingerprint,
            entries[i].lanes@,
        ) by {
            if i < h.len() {
                assert(h[i] == entries[i]);
                assert(entries[i].id@ != entries[entries.len() - 1].id@);
            }
        }
        assert forall|id: Seq<char>|
            (forall|i: int| 0 <= i < entries.len() ==> (#[trigger] entries[i]).id@ != id) implies
            !#[trigger] cache_of(entries).contains_key(id) by {
            assert forall|i: int| 0 <= i < h.len() implies (#[trigger] h[i]).id@ != id by {
                assert(entries[i].id@ != id);
            }
            assert(entries[entries.len() - 1].id@ != id);
        }
        assert(cache_of(entries).dom() =~= cache_of(h).dom().insert(last));
    }
}

impl View for TimelineCache {
    type V = Map<Seq<char>, (u64, Seq<TimelineLane>)>;

    closed spec fn view(&self) -> Map<Seq<char>, (u64, Seq<TimelineLane>)> {
        cache_of(self.entries@)
    }
}

/// The timelines that are kept after one more was computed: a full cache is
/// emptied first.
pub open spec fn cached_after(
    c: Map<Seq<char>, (u64, Seq<TimelineLane>)>,
    id: Seq<char>,
    fp: u64,
    lanes: Seq<TimelineLane>,
) -> Map<Seq<char>, (u64, Seq<TimelineLane>)> {
    if c.dom().len() >= 8 {
        Map::empty().insert(id, (fp, lanes))
    } else {
        c.insert(id, (fp, lanes))
    }
}

impl TimelineCache {
    #[verifier::type_invariant]
    spec fn valid(self) -> bool {
        cache_distinct(self.entries@) && self.entries@.len() <= 8
    }

    /// An empty cache.
    pub fn new() -> (r: TimelineCache)
        ensures
            r@ == Map::<Seq<char>, (u64, Seq<TimelineLane>)>::empty(),
    {
        TimelineCache { entries: Vec::new() }
    }

    /// The timeline of a session, if its files are still the same.
    pub fn get(&self, id: &str, fp: u64) -> (r: Option<&Vec<TimelineLane>>)
        ensures
            match r {
                Some(l) => self@.contains_key(id@) && self@[id@] == (fp, l@),
                None => !(self@.contains_key(id@) && self@[id@].0 == fp),
            },
            self@.dom().len() <= 8,
    {
        proof {
            use_type_invariant(self);
            lemma_cache(self.entries@);
        }
        let mut i: usize = 0;
        while i < self.entries.len()
            invariant
                i <= self.entries@.len(),
                cache_distinct(self.entries@),
                self.entries@.len() <= 8,
                cache_of(self.entries@).dom().len() == self.entries@.len(),
                forall|k: int|
                    0 <= k < self.entries@.len() ==> cache_of(self.entries@).contains_key(
                        (#[trigger] self.entries@[k]).id@,
                    ) && cache_of(self.entries@)[self.entries@[k].id@] == (
                        self.entries@[k].fingerprint,
                        self.entries@[k].lanes@,
                    ),
                forall|k: int| 0 <= k < i ==> (#[trigger] self.entries@[k]).id@ != id@,
            decreases self.entries@.len() - i,
        {
            if same(&self.entries[i].id, id) {
                if self.entries[i].fingerprint == fp {
                    return Some(&self.entries[i].lanes);
                }
                return None;
            }
            i += 1;
        }
        proof {
            lemma_cache(self.entries@);
        }
        None
    }

    /// Keeps a timeline.
    pub fn put(&mut self, id: &str, fp: u64, lanes: Vec<TimelineLane>)
        ensures
            final(self)@ == cached_after(old(self)@, id@, fp, lanes@),
    {
        proof {
            use_type_invariant(&*self);
            lemma_cache(self.entries@);
        }
        let mut entries: Vec<CacheEntry> = Vec::new();
        std::mem::swap(&mut entries, &mut self.entries);
        let ghost before = entries@;
        if entries.len() >= CACHE_CAP {
            entries = Vec::new();
        }
        let ghost start = entries@;
        let ghost m = cache_of(start);
        assert(cache_distinct(start));
        match cache_place(&entries, id) {
            Some(i) => {
                proof {
                    lemma_cache_remove(start, i as int);
                }
                let _ = entries.remove(i);
                assert(entries@ =~= start.remove(i as int));
            },
            None => {
                proof {
                    lemma_cache(start);
                }
            },
        }
        let ghost kept = entries@;
        entries.push(CacheEntry { id: id.to_string(), fingerprint: fp, lanes });
        proof {
            let e = entries@;
            assert(e.drop_last() =~= kept);
            assert(e =~= kept.push(e.last()));
            lemma_push_distinct(kept, e.last());
            assert(cache_of(e) =~= m.insert(id@, (fp, lanes@)));
        }
        *self = TimelineCache { entries };
    }
}

proof fn lemma_push_distinct(entries: Seq<CacheEntry>, e: CacheEntry)
    requires
        cache_distinct(entries),
        forall|i: int| 0 <= i < entries.len() ==> (#[trigger] entries[i]).id@ != e.id@,
    ensures
        cache_distinct(entries.push(e)),
{
    let t = entries.push(e);
    assert forall|i: int, j: int|
        #![trigger t[i], t[j]]
        0 <= i < j < t.len() implies t[i].id@ != t[j].id@ by {
        assert(t[i] == entries[i]);
        if j < entries.len() {
            assert(t[j] == entries[j]);
        }
    }
}

proof fn lemma_cache_remove(entries: Seq<CacheEntry>, at: int)
    requires
        0 <= at < entries.len(),
        cache_distinct(entries),
    ensures
        cache_distinct(entries.remove(at)),
        forall|i: int|
            0 <= i < entries.len() - 1 ==> (#[trigger] entries.remove(at)[i]).id@
                != entries[at].id@,
        cache_of(entries.remove(at)) == cache_of(entries).remove(entries[at].id@),
    decreases entries.len(),
{
    let t = entries.remove(at);
    let id = entries[at].id@;
    assert(forall|i: int|
        0 <= i < t.len() ==> #[trigger] t[i] == (if i < at {
            entries[i]
        } else {
            entries[i + 1]
        }));
    assert forall|i: int| 0 <= i < t.len() implies (#[trigger] t[i]).id@ != id by {
        let k = if i < at {
            i
        } else {
            i + 1
        };
        assert(t[i] == entries[k]);
        assert(entries[k].id@ != entries[at].id@);
    }
    assert(cache_distinct(t)) by {
        assert forall|i: int, j: int|
            #![trigger t[i], t[j]]
            0 <= i < j < t.len() implies t[i].id@ != t[j].id@ by {
            let a = if i < at {
                i
            } else {
                i + 1
            };
            let b = if j < at {
                j
            } else {
                j + 1
            };
            assert(t[i] == entries[a] && t[j] == entries[b]);
        }
    }
    let h = entries.drop_last();
    assert(cache_distinct(h)) by {
        assert forall|i: int, j: int|
            #![trigger h[i], h[j]]
            0 <= i < j < h.len() implies h[i].id@ != h[j].id@ by {
            assert(entries[i].id@ != entries[j].id@);
        }
    }
    if at == entries.len() - 1 {
        assert(t =~= h);
        lemma_cache(h);
        assert forall|i: int| 0 <= i < h.len() implies (#[trigger] h[i]).id@ != id by {
            assert(t[i].id@ != id);
        }
        assert(!cache_of(h).contains_key(id));
        assert(cache_of(entries).remove(id) =~= cache_of(h));
    } else {
        lemma_cache_remove(h, at);
        assert(t.drop_last() =~= h.remove(at));
        assert(t.last() == entries.last());
        assert(h[at].id@ == id);
        assert(entries[entries.len() - 1].id@ != id);
        assert(cache_of(t) =~= cache_of(entries).remove(id));
    }
}

fn cache_place(entries: &Vec<CacheEntry>, id: &str) -> (r: Option<usize>)
    ensures
        match r {
            Some(i) => i < entries@.len() && entries@[i as int].id@ == id@,
            None => forall|i: int| 0 <= i < entries@.len() ==> (#[trigger] entries@[i]).id@ != id@,
        },
{
    let mut i: usize = 0;
    while i < entries.len()
        invariant
            i <= entries@.len(),
            forall|k: int| 0 <= k < i ==> (#[trigger] entries@[k]).id@ != id@,
        decreases entries@.len() - i,
    {
        if same(&entries[i].id, id) {
            return Some(i);
        }
        i += 1;
    }
    None
}

/// A timeline that was just kept is served while its files stay the same, and no
/// longer once they change; the cache holds eight at most.
pub proof fn cache_serves_what_was_kept(
    c: Map<Seq<char>, (u64, Seq<TimelineLane>)>,
    id: Seq<char>,
    fp: u64,
    lanes: Seq<TimelineLane>,
)
    requires
        c.dom().finite(),
        c.dom().len() <= 8,
    ensures
        cached_after(c, id, fp, lanes).contains_key(id),
        cached_after(c, id, fp, lanes)[id] == (fp, lanes),
        cached_after(c, id, fp, lanes).dom().len() <= 8,
{
    let d = cached_after(c, id, fp, lanes);
    if c.dom().len() >= 8 {
        assert(d.dom() =~= Set::empty().insert(id));
    } else {
        assert(d.dom() =~= c.dom().insert(id));
    }
}

/// What a request for a timeline leads to.
#[derive(Debug, Clone, Copy, PartialEq, Eq, Structural)]
pub enum TimelinePlan {
    /// Report an empty timeline: there is no kept audio.
    Empty,
    /// Report the timeline that is kept.
    Cached,
    /// Nothing: it is being computed.
    Building,
    /// Register the job and compute it.
    Build,
}

/// What a request for a timeline leads to. `tracks` counts the tracks (none if the
/// session kept no audio), `hit` says that the timeline is kept, `running` that it
/// is being computed.
pub open spec fn planned_timeline(tracks: nat, hit: bool, running: bool) -> TimelinePlan {
    if tracks == 0 {
        TimelinePlan::Empty
    } else if hit {
        TimelinePlan::Cached
    } else if running {
        TimelinePlan::Building
    } else {
        TimelinePlan::Build
    }
}

/// Decides what a request for a timeline leads to.
pub fn timeline_plan(tracks: usize, hit: bool, running: bool) -> (r: TimelinePlan)
    ensures
        r == planned_timeline(tracks as nat, hit, running),
{
    if tracks == 0 {
        TimelinePlan::Empty
    } else if hit {
        TimelinePlan::Cached
    } else if running {
        TimelinePlan::Building
    } else {
        TimelinePlan::Build
    }
}

/// The lane of a track.
pub fn timeline_lane(suffix: &String, duration_ms: u64, peaks: Vec<u32>, speech: Vec<bool>) -> (r:
    TimelineLane)
    ensures
        r.track == *suffix,
        r.duration_ms == duration_ms,
        r.peaks == peaks,
        r.speech == speech,
        match r.speaker {
            Some(n) => keyed_speaker(suffix@) == Some(n as int),
            None => keyed_speaker(suffix@) is None,
        },
{
    TimelineLane {
        track: suffix.clone(),
        speaker: speaker_key(suffix),
        duration_ms,
        peaks,
        speech,
    }
}

// ---------------------------------------------------------------------------
// Compression of kept audio
// ---------------------------------------------------------------------------

/// The compression is switched on, or asked for.
pub open spec fn compression_on(after_days: Option<u32>, ignore_age: bool) -> bool {
    after_days is Some || ignore_age
}

/// A session's audio is compressed now: it has some, it has ended, and it is old
/// enough or age does not matter.
pub open spec fn due_for_compression(
    s: Session,
    after_days: Option<u32>,
    ignore_age: bool,
    now: u64,
) -> bool {
    let days = match after_days {
        Some(d) => d as int,
        None => 0,
    };
    let age = if now >= s.started_at {
        now - s.started_at
    } else {
        0
    };
    &&& compression_on(after_days, ignore_age)
    &&& s.audio_path is Some
    &&& s.ended_at is Some
    &&& ignore_age || age >= days * 86_400_000
}

/// Whether a session's audio is compressed now. The running recording never is.
pub fn wants_compression(s: &Session, after_days: Option<u32>, ignore_age: bool, now: u64) -> (r:
    bool)
    ensures
        r == due_for_compression(*s, after_days, ignore_age, now),
{
    if after_days.is_none() && !ignore_age {
        return false;
    }
    if s.audio_path.is_none() || s.ended_at.is_none() {
        return false;
    }
    let days: u64 = match after_days {
        Some(d) => d as u64,
        None => 0,
    };
    let age: u64 = now.saturating_sub(s.started_at);
    ignore_age || age >= days * 86_400_000
}

/// What the compression does with a file of a session's folder.
#[derive(Debug, Clone, Copy, PartialEq, Eq, Structural)]
pub enum SweepFile {
    /// Left over from an interrupted run.
    Remove,
    Compress,
    Leave,
}

/// What the compression does with a file of a session's folder.
pub fn sweep_file(name: &str) -> (r: SweepFile)
    ensures
        r == (if finishes(name@, ".partial"@) {
            SweepFile::Remove
        } else if finishes(name@, ".wav"@) && name@.len() > 4 {
            SweepFile::Compress
        } else {
            SweepFile::Leave
        }),
{
    if ends_with(name, ".partial") {
        SweepFile::Remove
    } else if ends_with(name, ".wav") && name.unicode_len() > 4 {
        SweepFile::Compress
    } else {
        SweepFile::Leave
    }
}

/// The length of a track at the rate of compressed audio.
pub open spec fn expected_length(samples: int, rate: int) -> int {
    samples * 48_000 / (if rate > 0 {
        rate
    } else {
        1
    })
}

/// The compressed length is within one percent and one frame of the recording.
pub open spec fn length_agrees(expect: int, got: int) -> bool {
    (if got >= expect {
        got - expect
    } else {
        expect - got
    }) <= expect / 100 + 960
}

/// The length that a compressed track should have.
pub fn compressed_length(samples: u64, rate: u32) -> (r: u64)
    requires
        samples * 48_000 <= u64::MAX,
    ensures
        r == expected_length(samples as int, rate as int),
{
    let by: u64 = if rate > 0 {
        rate as u64
    } else {
        1
    };
    samples * 48_000 / by
}

/// Whether a compressed track has the length of the recording, so that the
/// recording may be deleted.
pub fn verified_length(samples: u64, rate: u32, got: u64) -> (r: bool)
    requires
        samples * 48_000 <= u64::MAX,
    ensures
        r == length_agrees(expected_length(samples as int, rate as int), got as int),
{
    let expect: u64 = compressed_length(samples, rate);
    let tolerance: u64 = expect / 100;
    let diff: u64 = if got >= expect {
        got - expect
    } else {
        expect - got
    };
    diff <= tolerance || diff - tolerance <= 960
}

/// A track without its audio never passes: an empty result counts as verified
/// only for tracks of at most one frame and a rounding's length.
pub proof fn lost_audio_is_noticed(expect: int)
    requires
        expect > 969,
    ensures
        !length_agrees(expect, 0),
{
}

// ---------------------------------------------------------------------------
// Clips
// ---------------------------------------------------------------------------

/// The rate of mixed audio.
pub const OUT_RATE: u64 = 48_000;

/// Why a clip cannot be cut.
#[derive(Debug, Clone, Copy, PartialEq, Eq, Structural)]
pub enum ClipError {
    NoTracks,
    EmptyRange,
}

impl ClipError {
    /// The text of an error.
    pub fn text(self) -> (r: &'static str)
        ensures
            r@ == (match self {
                ClipError::NoTracks => "no audio tracks for clip export"@,
                ClipError::EmptyRange => "clip end must be after start"@,
            }),
    {
        match self {
            ClipError::NoTracks => "no audio tracks for clip export",
            ClipError::EmptyRange => "clip end must be after start",
        }
    }
}

/// A clip that is being cut.
#[derive(Debug, Clone, Copy)]
pub struct Clip {
    pub want: u64,
    pub got: u64,
}

/// The number of samples between two times.
pub open spec fn clip_samples(start_ms: int, end_ms: int) -> int {
    (end_ms - start_ms) * 48_000 / 1000
}

impl Clip {
    /// No more was taken than wanted.
    pub open spec fn wf(self) -> bool {
        self.got <= self.want
    }

    /// Begins a clip of `tracks` tracks.
    pub fn new(tracks: usize, start_ms: u64, end_ms: u64) -> (r: Result<Clip, ClipError>)
        requires
            tracks > 0 ==> (end_ms - start_ms) * 48_000 <= u64::MAX,
        ensures
            match r {
                Ok(c) => {
                    &&& tracks > 0
                    &&& end_ms > start_ms
                    &&& c.want == clip_samples(start_ms as int, end_ms as int)
                    &&& c.got == 0
                    &&& c.wf()
                },
                Err(ClipError::NoTracks) => tracks == 0,
                Err(ClipError::EmptyRange) => tracks > 0 && end_ms <= start_ms,
            },
    {
        if tracks == 0 {
            return Err(ClipError::NoTracks);
        }
        if end_ms <= start_ms {
            return Err(ClipError::EmptyRange);
        }
        Ok(Clip { want: (end_ms - start_ms) * OUT_RATE / 1000, got: 0 })
    }

    /// Whether more samples are wanted.
    pub fn wants_more(&self) -> (r: bool)
        ensures
            r == (self.got < self.want),
    {
        self.got < self.want
    }

    /// How many samples of the next block belong to the clip.
    pub fn take(&mut self, block: usize) -> (r: usize)
        requires
            old(self).wf(),
        ensures
            r == (if block <= old(self).want - old(self).got {
                block as int
            } else {
                old(self).want - old(self).got
            }),
            final(self).want == old(self).want,
            final(self).got == old(self).got + r,
            final(self).wf(),
    {
        let left: u64 = self.want - self.got;
        let n: usize = if block as u64 <= left {
            block
        } else {
            left as usize
        };
        self.got = self.got + n as u64;
        n
    }
}

/// The samples that a clip takes from a row of blocks.
pub open spec fn taken(want: int, blocks: Seq<usize>) -> int
    decreases blocks.len(),
{
    if blocks.len() == 0 {
        0
    } else {
        let p = taken(want, blocks.drop_last());
        p + if blocks.last() <= want - p {
            blocks.last() as int
        } else {
            want - p
        }
    }
}

/// The samples in a row of blocks.
pub open spec fn available(blocks: Seq<usize>) -> int
    decreases blocks.len(),
{
    if blocks.len() == 0 {
        0
    } else {
        available(blocks.drop_last()) + blocks.last()
    }
}

/// A clip gets all the audio there is, up to its length and not a sample more.
pub proof fn clip_has_its_length(want: int, blocks: Seq<usize>)
    requires
        want >= 0,
    ensures
        taken(want, blocks) == if available(blocks) <= want {
            available(blocks)
        } else {
            want
        },
    decreases blocks.len(),
{
    if blocks.len() > 0 {
        clip_has_its_length(want, blocks.drop_last());
    }
}

/// The name of a clip's file.
pub fn clip_name(id: &str, start_ms: u64, end_ms: u64) -> (r: String)
    ensures
        r@ == id@ + "-clip-"@ + decimal(start_ms as nat) + "-"@ + decimal(end_ms as nat) + ".wav"@,
{
    let mut r = id.to_string();
    r.push_str("-clip-");
    r.push_str(&write_u64(start_ms));
    r.push_str("-");
    r.push_str(&write_u64(end_ms));
    r.push_str(".wav");
    r
}

/// The name of the file with all tracks mixed.
pub fn merged_name(id: &str) -> (r: String)
    ensures
        r@ == id@ + ".merged.wav"@,
{
    let mut r = id.to_string();
    r.push_str(".merged.wav");
    r
}

// ---------------------------------------------------------------------------
// Transcribing a part again
// ---------------------------------------------------------------------------

/// A line of a participant's track belongs to that participant.
pub fn stamp_speaker(seg: Segment, speaker: Option<i32>) -> (r: Segment)
    ensures
        r == (match speaker {
            Some(n) => Segment { speaker: Some(n), ..seg },
            None => seg,
        }),
{
    match speaker {
        Some(n) => Segment {
            id: seg.id,
            source: seg.source,
            t_start_ms: seg.t_start_ms,
            t_end_ms: seg.t_end_ms,
            text: seg.text,
            speaker: Some(n),
        },
        None => seg,
    }
}

/// The notice after a part was transcribed again.
pub fn range_text(removed: usize, added: usize) -> (r: String)
    ensures
        r@ == "Selection re-transcribed: removed "@ + decimal(removed as nat)
            + " segment(s), added "@ + decimal(added as nat) + "."@,
{
    let mut r = "Selection re-transcribed: removed ".to_string();
    r.push_str(&write_u64(removed as u64));
    r.push_str(" segment(s), added ");
    r.push_str(&write_u64(added as u64));
    r.push_str(".");
    r
}

// ---------------------------------------------------------------------------
// What the tracks are
// ---------------------------------------------------------------------------

/// The file of a speaker's track names the speaker, in both of its forms; other files
/// name nobody.
pub proof fn track_files_name_their_speaker(n: i32, name: Seq<char>)
    ensures
        track_number("spk-"@ + signed(n as int) + ".wav"@) == Some(n as int),
        track_number("spk-"@ + signed(n as int) + ".opus"@) == Some(n as int),
        track_number(name) is Some ==> begins(name, "spk-"@) && (finishes(name, ".wav"@)
            || finishes(name, ".opus"@)),
        speaker_suffix(n as int) == "spk-"@ + signed(n as int),
        keyed_speaker(speaker_suffix(n as int)) == Some(n as int),
{
    reveal_strlit("spk-");
    reveal_strlit(".wav");
    reveal_strlit(".opus");
    let w = "spk-"@ + signed(n as int) + ".wav"@;
    let o = "spk-"@ + signed(n as int) + ".opus"@;
    crate::number::written_number_reads_back(n as int, i32::MIN as int, i32::MAX as int);
    assert(w.subrange(0, 4) =~= "spk-"@);
    assert(o.subrange(0, 4) =~= "spk-"@);
    let wr = w.skip(4);
    let or = o.skip(4);
    assert(wr.subrange(wr.len() - 4, wr.len() as int) =~= ".wav"@);
    assert(or.subrange(or.len() - 5, or.len() as int) =~= ".opus"@);
    assert(or.subrange(or.len() - 4, or.len() as int)[0] == 'o');
    assert(".wav"@[0] == '.');
    assert(wr.take(wr.len() - 4) =~= signed(n as int));
    assert(or.take(or.len() - 5) =~= signed(n as int));
    crate::labels::keys_name_speakers(n, name);
    if track_number(name) is Some {
        let rest = name.skip(4);
        if finishes(rest, ".wav"@) {
            assert(name.subrange(name.len() - 4, name.len() as int) =~= rest.subrange(
                rest.len() - 4,
                rest.len() as int,
            ));
        } else {
            assert(name.subrange(name.len() - 5, name.len() as int) =~= rest.subrange(
                rest.len() - 5,
                rest.len() as int,
            ));
        }
    }
}

/// A track is kept exactly if its file was found, with that file; the order stays.
pub proof fn found_files_are_kept(suffixes: Seq<String>, paths: Seq<Option<String>>, i: int)
    requires
        paths.len() == suffixes.len(),
    ensures
        0 <= i < suffixes.len() && paths[i] is Some ==> found_tracks(suffixes, paths).contains(
            (suffixes[i], paths[i]->0),
        ),
        forall|k: int|
            0 <= k < found_tracks(suffixes, paths).len() ==> exists|j: int|
                0 <= j < suffixes.len() && suffixes[j] == (#[trigger] found_tracks(suffixes, paths)[k]).0
                    && #[trigger] paths[j] == Some(found_tracks(suffixes, paths)[k].1),
        suffixes.len() > 0 ==> found_tracks(suffixes, paths) == found_tracks(
            suffixes.drop_last(),
            paths.drop_last(),
        ) + (match paths.last() {
            Some(x) => seq![(suffixes.last(), x)],
            None => Seq::empty(),
        }),
    decreases suffixes.len(),
{
    if suffixes.len() > 0 {
        let h = suffixes.drop_last();
        let q = paths.drop_last();
        found_files_are_kept(h, q, i);
        lemma_found_prefix(h, paths, q);
        let r = found_tracks(suffixes, paths);
        let p = found_tracks(h, q);
        assert(r =~= p + (match paths.last() {
            Some(x) => seq![(suffixes.last(), x)],
            None => Seq::empty(),
        }));
        if 0 <= i < suffixes.len() && paths[i] is Some {
            if i < h.len() {
                assert(q[i] == paths[i] && h[i] == suffixes[i]);
                let m = choose|m: int|
                    0 <= m < p.len() && p[m] == (suffixes[i], paths[i]->0);
                assert(r[m] == p[m]);
            } else {
                assert(r[r.len() - 1] == (suffixes[i], paths[i]->0));
            }
        }
        assert forall|k: int| 0 <= k < r.len() implies exists|j: int|
            0 <= j < suffixes.len() && suffixes[j] == (#[trigger] r[k]).0 && #[trigger] paths[j]
                == Some(r[k].1) by {
            if k < p.len() {
                assert(r[k] == p[k]);
                let j = choose|j: int|
                    0 <= j < h.len() && h[j] == p[k].0 && #[trigger] q[j] == Some(p[k].1);
                assert(suffixes[j] == r[k].0 && paths[j] == Some(r[k].1));
            } else {
                assert(suffixes[suffixes.len() - 1] == r[k].0 && paths[suffixes.len() - 1] == Some(
                    r[k].1,
                ));
            }
        }
    }
}

proof fn lemma_found_prefix(s: Seq<String>, a: Seq<Option<String>>, b: Seq<Option<String>>)
    requires
        s.len() <= a.len(),
        s.len() <= b.len(),
        forall|i: int| 0 <= i < s.len() ==> #[trigger] a[i] == b[i],
    ensures
        found_tracks(s, a) == found_tracks(s, b),
    decreases s.len(),
{
    if s.len() > 0 {
        lemma_found_prefix(s.drop_last(), a, b);
        assert(a[s.len() - 1] == b[s.len() - 1]);
    }
}

/// A track goes to its channel or its speaker and to nobody else, and a later file of
/// the same track replaces an earlier one.
pub proof fn tracks_go_where_they_belong(
    tracks: Seq<(String, String)>,
    suffix: String,
    path: String,
    n: i32,
)
    ensures
        ({
            let f = files_of(tracks);
            let g = files_of(tracks.push((suffix, path)));
            &&& suffix@ == "me"@ ==> g.me == Some(path) && g.others == f.others && g.speakers
                == f.speakers
            &&& suffix@ == "others"@ ==> g.others == Some(path) && g.me == f.me && g.speakers
                == f.speakers
            &&& suffix@ == "spk-"@ + signed(n as int) ==> g.me == f.me && g.others == f.others
                && g.speakers.contains_key(n) && g.speakers[n] == path && g.speakers.remove(n)
                == f.speakers.remove(n)
        }),
        files_of(Seq::empty()).me is None && files_of(Seq::empty()).others is None,
        forall|k: i32| !(#[trigger] files_of(Seq::empty()).speakers.contains_key(k)),
{
    let t = tracks.push((suffix, path));
    assert(t.drop_last() =~= tracks);
    reveal_strlit("me");
    reveal_strlit("others");
    reveal_strlit("spk-");
    assert("me"@.len() == 2 && "others"@.len() == 6);
    crate::labels::keys_name_speakers(n, suffix@);
    if suffix@ == "spk-"@ + signed(n as int) {
        assert(suffix@[0] == 's');
        assert("me"@[0] == 'm');
        assert("others"@[0] == 'o');
        let f = files_of(tracks);
        assert(f.speakers.insert(n, path).remove(n) =~= f.speakers.remove(n));
    }
}

/// The fingerprint sums up every file, in whatever order; one changed size or time
/// changes the sum by as much.
pub proof fn fingerprints_see_every_file(
    a: Seq<(u64, u64)>,
    b: Seq<(u64, u64)>,
    x: (u64, u64),
)
    ensures
        file_sum(a + b) == file_sum(a) + file_sum(b),
        file_sum(seq![x]) == x.0 + x.1,
        file_sum(a + b) == file_sum(b + a),
    decreases b.len(),
{
    let one = seq![x];
    assert(one.drop_last() =~= Seq::empty());
    assert(file_sum(one.drop_last()) == 0);
    lemma_sum_split(a, b);
    lemma_sum_split(b, a);
}

proof fn lemma_sum_split(a: Seq<(u64, u64)>, b: Seq<(u64, u64)>)
    ensures
        file_sum(a + b) == file_sum(a) + file_sum(b),
    decreases b.len(),
{
    if b.len() == 0 {
        assert(a + b =~= a);
    } else {
        assert((a + b).drop_last() =~= a + b.drop_last());
        lemma_sum_split(a, b.drop_last());
    }
}

/// Until the cache is full, keeping one timeline leaves the others; a full cache is
/// emptied first.
pub proof fn other_timelines_are_left(
    c: Map<Seq<char>, (u64, Seq<TimelineLane>)>,
    id: Seq<char>,
    other: Seq<char>,
    fp: u64,
    lanes: Seq<TimelineLane>,
)
    requires
        other != id,
    ensures
        c.dom().len() < 8 ==> (cached_after(c, id, fp, lanes).contains_key(other)
            <==> c.contains_key(other)),
        c.dom().len() < 8 && c.contains_key(other) ==> cached_after(c, id, fp, lanes)[other]
            == c[other],
        c.dom().len() >= 8 ==> !cached_after(c, id, fp, lanes).contains_key(other),
{
}

/// Kept audio is compressed once its session has ended and is as many days old as the
/// setting says, or at once where the user asks for it; never while it is recorded, and
/// not at all where compression is off. Whoever is due stays due.
pub proof fn compression_waits_for_age(
    s: Session,
    days: u32,
    now: u64,
    later: u64,
    after_days: Option<u32>,
    ignore_age: bool,
)
    requires
        now <= later,
    ensures
        s.ended_at is None || s.audio_path is None ==> !due_for_compression(
            s,
            after_days,
            ignore_age,
            now,
        ),
        !due_for_compression(s, None, false, now),
        s.ended_at is Some && s.audio_path is Some ==> due_for_compression(s, after_days, true, now),
        s.ended_at is Some && s.audio_path is Some && now >= s.started_at ==> (due_for_compression(
            s,
            Some(days),
            false,
            now,
        ) <==> now - s.started_at >= days * 86_400_000),
        due_for_compression(s, after_days, ignore_age, now) ==> due_for_compression(
            s,
            after_days,
            ignore_age,
            later,
        ),
{
}

/// A compressed track has the length of the recording at the rate of compressed audio:
/// one second is 48,000 samples, whatever the rate was. A length that is exact passes,
/// and one that is short by more than a hundredth and a frame does not.
pub proof fn compressed_lengths_are_checked(seconds: int, rate: int, expect: int, got: int)
    requires
        rate > 0,
        seconds >= 0,
        expect >= 0,
        got >= 0,
    ensures
        expected_length(seconds * rate, rate) == seconds * 48_000,
        length_agrees(expect, expect),
        got * 100 < expect * 99 - 96_100 ==> !length_agrees(expect, got),
        got * 100 > expect * 101 + 96_000 ==> !length_agrees(expect, got),
        length_agrees(expect, got) ==> got * 100 >= expect * 99 - 96_100 && got * 100 <= expect
            * 101 + 96_000,
        expect - 960 <= got <= expect + 960 ==> length_agrees(expect, got),
{
    assert(seconds * rate * 48_000 == (seconds * 48_000) * rate) by (nonlinear_arith);
    vstd::arithmetic::div_mod::lemma_div_by_multiple(seconds * 48_000, rate);
}

/// A clip has 48 samples for each millisecond.
pub proof fn clips_have_their_duration(start_ms: int, end_ms: int)
    requires
        start_ms <= end_ms,
    ensures
        clip_samples(start_ms, end_ms) == 48 * (end_ms - start_ms),
{
}

/// A compressed track may be off by a hundredth of its length and twenty milliseconds
/// more, longer or shorter.
pub proof fn lengths_agree_to_a_hundredth(expect: int, got: int)
    requires
        expect >= 0,
    ensures
        got >= expect ==> (length_agrees(expect, got) <==> 100 * (got - expect - 960) <= expect),
        got <= expect ==> (length_agrees(expect, got) <==> 100 * (expect - got - 960) <= expect),
{
}

} // verus!
