//! The names of background jobs.

use vstd::prelude::*;

verus! {

/// What a background job is about.
#[derive(Debug, Clone)]
pub enum JobKey {
    Summarize(String),
    Compress(String),
    Overview,
    Recompress,
    ExportAudio(String),
    CompressAudio,
    Diarize(String),
    Retranscribe(String),
    Timeline(String),
    ExportClip(String),
    RetranscribeRange(String),
    KbExport,
    Semantic,
    Sentiment,
    SentimentSession(String),
}

/// The part of a job's name before the session.
pub open spec fn key_head(k: JobKey) -> Seq<char> {
    match k {
        JobKey::Summarize(_) => "summarize:"@,
        JobKey::Compress(_) => "compress:"@,
        JobKey::Overview => "overview"@,
        JobKey::Recompress => "recompress"@,
        JobKey::ExportAudio(_) => "exportaudio:"@,
        JobKey::CompressAudio => "compress-audio"@,
        JobKey::Diarize(_) => "diarize:"@,
        JobKey::Retranscribe(_) => "retranscribe:"@,
        JobKey::Timeline(_) => "timeline:"@,
        JobKey::ExportClip(_) => "exportclip:"@,
        JobKey::RetranscribeRange(_) => "retranscribe-range:"@,
        JobKey::KbExport => "kbexport"@,
        JobKey::Semantic => "semantic"@,
        JobKey::Sentiment => "sentiment"@,
        JobKey::SentimentSession(_) => "sentiment:"@,
    }
}

/// The session that a job is about.
pub open spec fn key_session(k: JobKey) -> Option<Seq<char>> {
    match k {
        JobKey::Summarize(id) => Some(id@),
        JobKey::Compress(id) => Some(id@),
        JobKey::ExportAudio(id) => Some(id@),
        JobKey::Diarize(id) => Some(id@),
        JobKey::Retranscribe(id) => Some(id@),
        JobKey::Timeline(id) => Some(id@),
        JobKey::ExportClip(id) => Some(id@),
        JobKey::RetranscribeRange(id) => Some(id@),
        JobKey::SentimentSession(id) => Some(id@),
        _ => None,
    }
}

/// The name of a job.
pub open spec fn key_text(k: JobKey) -> Seq<char> {
    match key_session(k) {
        Some(id) => key_head(k) + id,
        None => key_head(k),
    }
}

/// The kind of a job, as the window shows it.
pub open spec fn key_kind(k: JobKey) -> Seq<char> {
    match k {
        JobKey::Summarize(_) => "summarize"@,
        JobKey::Compress(_) => "compress"@,
        JobKey::Overview => "overview"@,
        JobKey::Recompress => "compress"@,
        JobKey::ExportAudio(_) => "export"@,
        JobKey::CompressAudio => "compress"@,
        JobKey::Diarize(_) => "diarize"@,
        JobKey::Retranscribe(_) => "retranscribe"@,
        JobKey::Timeline(_) => "timeline"@,
        JobKey::ExportClip(_) => "export"@,
        JobKey::RetranscribeRange(_) => "retranscribe"@,
        JobKey::KbExport => "kbexport"@,
        JobKey::Semantic => "semantic"@,
        JobKey::Sentiment => "sentiment"@,
        JobKey::SentimentSession(_) => "sentiment"@,
    }
}

/// The label of a job.
pub open spec fn key_label(k: JobKey) -> Seq<char> {
    match k {
        JobKey::Summarize(_) => "Summarizing meeting"@,
        JobKey::Compress(_) => "Compressing meeting"@,
        JobKey::Overview => "Updating overview"@,
        JobKey::Recompress => "Re-compressing transcripts"@,
        JobKey::ExportAudio(_) => "Merging session audio"@,
        JobKey::CompressAudio => "Compressing kept audio"@,
        JobKey::Diarize(_) => "Identifying speakers"@,
        JobKey::Retranscribe(_) => "Re-transcribing meeting"@,
        JobKey::Timeline(_) => "Building timeline"@,
        JobKey::ExportClip(_) => "Exporting clip"@,
        JobKey::RetranscribeRange(_) => "Re-transcribing selection"@,
        JobKey::KbExport => "Exporting knowledge base"@,
        JobKey::Semantic => "Building semantic index"@,
        JobKey::Sentiment => "Analyzing meeting moments"@,
        JobKey::SentimentSession(_) => "Analyzing meeting moments"@,
    }
}

fn with_session(head: &str, id: &String) -> (r: String)
    ensures
        r@ == head@ + id@,
{
    let mut r = head.to_string();
    r.push_str(id);
    r
}

impl JobKey {
    /// The name of the job; it is unique.
    pub fn id(&self) -> (r: String)
        ensures
            r@ == key_text(*self),
    {
        match self {
            JobKey::Summarize(id) => with_session("summarize:", id),
            JobKey::Compress(id) => with_session("compress:", id),
            JobKey::Overview => "overview".to_string(),
            JobKey::Recompress => "recompress".to_string(),
            JobKey::ExportAudio(id) => with_session("exportaudio:", id),
            JobKey::CompressAudio => "compress-audio".to_string(),
            JobKey::Diarize(id) => with_session("diarize:", id),
            JobKey::Retranscribe(id) => with_session("retranscribe:", id),
            JobKey::Timeline(id) => with_session("timeline:", id),
            JobKey::ExportClip(id) => with_session("exportclip:", id),
            JobKey::RetranscribeRange(id) => with_session("retranscribe-range:", id),
            JobKey::KbExport => "kbexport".to_string(),
            JobKey::Semantic => "semantic".to_string(),
            JobKey::Sentiment => "sentiment".to_string(),
            JobKey::SentimentSession(id) => with_session("sentiment:", id),
        }
    }

    /// The kind of the job.
    pub fn kind(&self) -> (r: &'static str)
        ensures
            r@ == key_kind(*self),
    {
        match self {
            JobKey::Summarize(_) => "summarize",
            JobKey::Compress(_) => "compress",
            JobKey::Overview => "overview",
            JobKey::Recompress => "compress",
            JobKey::ExportAudio(_) => "export",
            JobKey::CompressAudio => "compress",
            JobKey::Diarize(_) => "diarize",
            JobKey::Retranscribe(_) => "retranscribe",
            JobKey::Timeline(_) => "timeline",
            JobKey::ExportClip(_) => "export",
            JobKey::RetranscribeRange(_) => "retranscribe",
            JobKey::KbExport => "kbexport",
            JobKey::Semantic => "semantic",
            JobKey::Sentiment => "sentiment",
            JobKey::SentimentSession(_) => "sentiment",
        }
    }

    /// The label of the job.
    pub fn label(&self) -> (r: &'static str)
        ensures
            r@ == key_label(*self),
    {
        match self {
            JobKey::Summarize(_) => "Summarizing meeting",
            JobKey::Compress(_) => "Compressing meeting",
            JobKey::Overview => "Updating overview",
            JobKey::Recompress => "Re-compressing transcripts",
            JobKey::ExportAudio(_) => "Merging session audio",
            JobKey::CompressAudio => "Compressing kept audio",
            JobKey::Diarize(_) => "Identifying speakers",
            JobKey::Retranscribe(_) => "Re-transcribing meeting",
            JobKey::Timeline(_) => "Building timeline",
            JobKey::ExportClip(_) => "Exporting clip",
            JobKey::RetranscribeRange(_) => "Re-transcribing selection",
            JobKey::KbExport => "Exporting knowledge base",
            JobKey::Semantic => "Building semantic index",
            JobKey::Sentiment => "Analyzing meeting moments",
            JobKey::SentimentSession(_) => "Analyzing meeting moments",
        }
    }

    /// A copy of the key.
    pub fn copy(&self) -> (r: JobKey)
        ensures
            r == *self,
    {
        match self {
            JobKey::Summarize(id) => JobKey::Summarize(id.clone()),
            JobKey::Compress(id) => JobKey::Compress(id.clone()),
            JobKey::Overview => JobKey::Overview,
            JobKey::Recompress => JobKey::Recompress,
            JobKey::ExportAudio(id) => JobKey::ExportAudio(id.clone()),
            JobKey::CompressAudio => JobKey::CompressAudio,
            JobKey::Diarize(id) => JobKey::Diarize(id.clone()),
            JobKey::Retranscribe(id) => JobKey::Retranscribe(id.clone()),
            JobKey::Timeline(id) => JobKey::Timeline(id.clone()),
            JobKey::ExportClip(id) => JobKey::ExportClip(id.clone()),
            JobKey::RetranscribeRange(id) => JobKey::RetranscribeRange(id.clone()),
            JobKey::KbExport => JobKey::KbExport,
            JobKey::Semantic => JobKey::Semantic,
            JobKey::Sentiment => JobKey::Sentiment,
            JobKey::SentimentSession(id) => JobKey::SentimentSession(id.clone()),
        }
    }
}

/// The only colon of the text is its last character.
spec fn colon_ended(p: Seq<char>) -> bool {
    &&& p.len() > 0
    &&& p.last() == ':'
    &&& forall|i: int| 0 <= i < p.len() - 1 ==> #[trigger] p[i] != ':'
}

/// The text has no colon.
spec fn no_colon(p: Seq<char>) -> bool {
    forall|i: int| 0 <= i < p.len() ==> #[trigger] p[i] != ':'
}

proof fn lemma_heads(k: JobKey)
    ensures
        key_session(k) is Some ==> colon_ended(key_head(k)),
        key_session(k) is None ==> no_colon(key_head(k)),
{
    reveal_strlit("summarize:");
    reveal_strlit("compress:");
    reveal_strlit("overview");
    reveal_strlit("recompress");
    reveal_strlit("exportaudio:");
    reveal_strlit("compress-audio");
    reveal_strlit("diarize:");
    reveal_strlit("retranscribe:");
    reveal_strlit("timeline:");
    reveal_strlit("exportclip:");
    reveal_strlit("retranscribe-range:");
    reveal_strlit("kbexport");
    reveal_strlit("semantic");
    reveal_strlit("sentiment");
    reveal_strlit("sentiment:");
}

proof fn lemma_split(p: Seq<char>, a: Seq<char>, q: Seq<char>, b: Seq<char>)
    requires
        colon_ended(p),
        colon_ended(q),
        p + a == q + b,
    ensures
        p == q,
        a == b,
{
    let x = p + a;
    let y = q + b;
    if p.len() < q.len() {
        assert(x[p.len() - 1] == ':');
        assert(y[p.len() - 1] == q[p.len() - 1]);
        assert(false);
    }
    if q.len() < p.len() {
        assert(y[q.len() - 1] == ':');
        assert(x[q.len() - 1] == p[q.len() - 1]);
        assert(false);
    }
    assert(x.subrange(0, p.len() as int) =~= p);
    assert(y.subrange(0, p.len() as int) =~= q);
    assert(x.subrange(p.len() as int, x.len() as int) =~= a);
    assert(y.subrange(p.len() as int, y.len() as int) =~= b);
}

/// A number for each sort of job.
pub open spec fn key_sort(k: JobKey) -> int {
    match k {
        JobKey::Summarize(_) => 0,
        JobKey::Compress(_) => 1,
        JobKey::Overview => 2,
        JobKey::Recompress => 3,
        JobKey::ExportAudio(_) => 4,
        JobKey::CompressAudio => 5,
        JobKey::Diarize(_) => 6,
        JobKey::Retranscribe(_) => 7,
        JobKey::Timeline(_) => 8,
        JobKey::ExportClip(_) => 9,
        JobKey::RetranscribeRange(_) => 10,
        JobKey::KbExport => 11,
        JobKey::Semantic => 12,
        JobKey::Sentiment => 13,
        JobKey::SentimentSession(_) => 14,
    }
}

proof fn lemma_head_sort(k: JobKey, m: JobKey)
    requires
        key_head(k) == key_head(m),
    ensures
        key_sort(k) == key_sort(m),
{
    reveal_strlit("summarize:");
    reveal_strlit("compress:");
    reveal_strlit("overview");
    reveal_strlit("recompress");
    reveal_strlit("exportaudio:");
    reveal_strlit("compress-audio");
    reveal_strlit("diarize:");
    reveal_strlit("retranscribe:");
    reveal_strlit("timeline:");
    reveal_strlit("exportclip:");
    reveal_strlit("retranscribe-range:");
    reveal_strlit("kbexport");
    reveal_strlit("semantic");
    reveal_strlit("sentiment");
    reveal_strlit("sentiment:");
    let a = key_head(k);
    let b = key_head(m);
    assert(a.len() == b.len());
    assert(a[0] == b[0]);
    assert(a[1] == b[1]);
}

/// Different jobs have different names: jobs of two sorts never meet, and jobs of
/// one sort meet only on the same session.
pub proof fn job_names_are_unique(k: JobKey, m: JobKey)
    requires
        key_text(k) == key_text(m),
    ensures
        key_sort(k) == key_sort(m),
        key_session(k) == key_session(m),
{
    lemma_heads(k);
    lemma_heads(m);
    match (key_session(k), key_session(m)) {
        (Some(a), Some(b)) => {
            lemma_split(key_head(k), a, key_head(m), b);
            lemma_head_sort(k, m);
        },
        (Some(a), None) => {
            let i = key_head(k).len() - 1;
            assert(key_text(k)[i] == ':');
            assert(key_text(m)[i] != ':');
        },
        (None, Some(b)) => {
            let i = key_head(m).len() - 1;
            assert(key_text(m)[i] == ':');
            assert(key_text(k)[i] != ':');
        },
        (None, None) => {
            lemma_head_sort(k, m);
        },
    }
}

/// A job's name is its head and the session that it is about, and says its kind.
pub proof fn job_names_say_kind_and_session(k: JobKey, id: String)
    ensures
        key_session(k) is Some ==> crate::pattern::begins(key_text(k), key_head(k))
            && crate::pattern::finishes(key_text(k), key_session(k)->0),
        key_session(k) is None ==> key_text(k) == key_head(k),
        key_text(JobKey::Summarize(id)) == key_kind(JobKey::Summarize(id)) + ":"@ + id@,
        key_text(JobKey::Compress(id)) == key_kind(JobKey::Compress(id)) + ":"@ + id@,
        key_text(JobKey::Diarize(id)) == key_kind(JobKey::Diarize(id)) + ":"@ + id@,
        key_text(JobKey::Retranscribe(id)) == key_kind(JobKey::Retranscribe(id)) + ":"@ + id@,
        key_text(JobKey::Timeline(id)) == key_kind(JobKey::Timeline(id)) + ":"@ + id@,
        key_text(JobKey::SentimentSession(id)) == key_kind(JobKey::SentimentSession(id)) + ":"@ + id@,
        key_text(JobKey::Overview) == key_kind(JobKey::Overview),
        key_text(JobKey::KbExport) == key_kind(JobKey::KbExport),
        key_text(JobKey::Semantic) == key_kind(JobKey::Semantic),
        key_text(JobKey::Sentiment) == key_kind(JobKey::Sentiment),
        key_kind(JobKey::RetranscribeRange(id)) == key_kind(JobKey::Retranscribe(id)),
        key_kind(JobKey::ExportClip(id)) == key_kind(JobKey::ExportAudio(id)),
        key_kind(JobKey::CompressAudio) == key_kind(JobKey::Compress(id)),
        key_kind(JobKey::Recompress) == key_kind(JobKey::Compress(id)),
        key_label(JobKey::SentimentSession(id)) == key_label(JobKey::Sentiment),
{
    if key_session(k) is Some {
        crate::pattern::texts_stand_where_their_characters_do(key_head(k), key_session(k)->0, 0);
    }
    reveal_strlit(":");
    reveal_strlit("summarize");
    reveal_strlit("summarize:");
    reveal_strlit("compress");
    reveal_strlit("compress:");
    reveal_strlit("diarize");
    reveal_strlit("diarize:");
    reveal_strlit("retranscribe");
    reveal_strlit("retranscribe:");
    reveal_strlit("timeline");
    reveal_strlit("timeline:");
    reveal_strlit("sentiment");
    reveal_strlit("sentiment:");
    assert("summarize:"@ =~= "summarize"@ + ":"@);
    assert("compress:"@ =~= "compress"@ + ":"@);
    assert("diarize:"@ =~= "diarize"@ + ":"@);
    assert("retranscribe:"@ =~= "retranscribe"@ + ":"@);
    assert("timeline:"@ =~= "timeline"@ + ":"@);
    assert("sentiment:"@ =~= "sentiment"@ + ":"@);
}

} // verus!
