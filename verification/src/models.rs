//! The models that can be downloaded: the list of them, and who fetches which.

use crate::model::{Event, Features, ModelInfo};
use vstd::prelude::*;

verus! {

/// What the model list is made of.
#[derive(Debug, Clone)]
pub struct CatalogParts {
    pub transcription: Vec<ModelInfo>,
    /// Summary models, then those of the registry.
    pub summary: Vec<ModelInfo>,
    pub registry: Vec<ModelInfo>,
    /// Names of the files that the user put into the models folder.
    pub custom: Vec<String>,
    pub diarization: Vec<ModelInfo>,
}

/// An entry under its kind.
pub open spec fn is_entry(r: ModelInfo, m: ModelInfo, kind: Seq<char>) -> bool {
    &&& r.name == m.name
    &&& r.size == m.size
    &&& r.description == m.description
    &&& r.downloaded == m.downloaded
    &&& r.urls == m.urls
    &&& r.kind@ == kind
}

/// The entry of a file of the user.
pub open spec fn is_custom(r: ModelInfo, name: String) -> bool {
    &&& r.name == name
    &&& r.size@ == "local"@
    &&& r.description@ == "Custom GGUF (in models folder)"@
    &&& r.downloaded
    &&& r.urls@.len() == 0
    &&& r.kind@ == "summary"@
}

/// Entries of one kind, from this place on.
pub open spec fn entries_at(r: Seq<ModelInfo>, at: int, v: Seq<ModelInfo>, kind: Seq<char>) -> bool {
    &&& 0 <= at
    &&& at + v.len() <= r.len()
    &&& forall|i: int| #![trigger v[i]] 0 <= i < v.len() ==> is_entry(r[at + i], v[i], kind)
}

/// Entries of the user's files, from this place on.
pub open spec fn customs_at(r: Seq<ModelInfo>, at: int, v: Seq<String>) -> bool {
    &&& 0 <= at
    &&& at + v.len() <= r.len()
    &&& forall|i: int| #![trigger v[i]] 0 <= i < v.len() ==> is_custom(r[at + i], v[i])
}

fn put_all(r: &mut Vec<ModelInfo>, v: Vec<ModelInfo>, kind: &str)
    ensures
        final(r)@.len() == old(r)@.len() + v@.len(),
        final(r)@.take(old(r)@.len() as int) == old(r)@,
        entries_at(final(r)@, old(r)@.len() as int, v@, kind@),
{
    let ghost was = r@;
    let ghost all = v@;
    let mut v = v;
    let mut back: Vec<ModelInfo> = Vec::new();
    while v.len() > 0
        invariant
            v@.len() <= all.len(),
            back@.len() == all.len() - v@.len(),
            forall|i: int| 0 <= i < v@.len() ==> v@[i] == all[i],
            forall|i: int|
                0 <= i < back@.len() ==> #[trigger] back@[i] == all[all.len() - 1 - i],
        decreases v@.len(),
    {
        if let Some(m) = v.pop() {
            back.push(m);
        }
    }
    let ghost n = all.len();
    while back.len() > 0
        invariant
            back@.len() <= n,
            n == all.len(),
            r@.len() == was.len() + (n - back@.len()),
            r@.take(was.len() as int) == was,
            forall|i: int|
                0 <= i < back@.len() ==> #[trigger] back@[i] == all[all.len() - 1 - i],
            forall|i: int|
                #![trigger all[i]]
                0 <= i < n - back@.len() ==> is_entry(r@[was.len() + i], all[i], kind@),
        decreases back@.len(),
    {
        let ghost before = r@;
        let ghost k = n - back@.len();
        if let Some(m) = back.pop() {
            r.push(
                ModelInfo {
                    name: m.name,
                    size: m.size,
                    description: m.description,
                    downloaded: m.downloaded,
                    kind: kind.to_string(),
                    urls: m.urls,
                },
            );
        }
        proof {
            assert(r@.take(was.len() as int) =~= before.take(was.len() as int));
            assert forall|i: int| #![trigger all[i]] 0 <= i < k + 1 implies is_entry(
                r@[was.len() + i],
                all[i],
                kind@,
            ) by {
                if i < k {
                    assert(r@[was.len() + i] == before[was.len() + i]);
                }
            }
        }
    }
}

fn put_custom(r: &mut Vec<ModelInfo>, v: &Vec<String>)
    ensures
        final(r)@.len() == old(r)@.len() + v@.len(),
        final(r)@.take(old(r)@.len() as int) == old(r)@,
        customs_at(final(r)@, old(r)@.len() as int, v@),
{
    let ghost was = r@;
    let mut i: usize = 0;
    while i < v.len()
        invariant
            i <= v@.len(),
            r@.len() == was.len() + i,
            r@.take(was.len() as int) == was,
            forall|k: int|
                #![trigger v@[k]]
                0 <= k < i ==> is_custom(r@[was.len() + k], v@[k]),
        decreases v@.len() - i,
    {
        let ghost before = r@;
        r.push(
            ModelInfo {
                name: v[i].clone(),
                size: "local".to_string(),
                description: "Custom GGUF (in models folder)".to_string(),
                downloaded: true,
                kind: "summary".to_string(),
                urls: Vec::new(),
            },
        );
        proof {
            assert(r@.take(was.len() as int) =~= before.take(was.len() as int));
            assert forall|k: int| #![trigger v@[k]] 0 <= k < i + 1 implies is_custom(
                r@[was.len() + k],
                v@[k],
            ) by {
                if k < i {
                    assert(r@[was.len() + k] == before[was.len() + k]);
                }
            }
        }
        i += 1;
    }
}

proof fn lemma_entries_stay(
    a: Seq<ModelInfo>,
    b: Seq<ModelInfo>,
    at: int,
    v: Seq<ModelInfo>,
    kind: Seq<char>,
)
    requires
        entries_at(a, at, v, kind),
        a.len() <= b.len(),
        b.take(a.len() as int) == a,
    ensures
        entries_at(b, at, v, kind),
{
    assert forall|i: int| #![trigger v[i]] 0 <= i < v.len() implies is_entry(b[at + i], v[i], kind) by {
        assert(b.take(a.len() as int)[at + i] == b[at + i]);
    }
}

proof fn lemma_customs_stay(a: Seq<ModelInfo>, b: Seq<ModelInfo>, at: int, v: Seq<String>)
    requires
        customs_at(a, at, v),
        a.len() <= b.len(),
        b.take(a.len() as int) == a,
    ensures
        customs_at(b, at, v),
{
    assert forall|i: int| #![trigger v[i]] 0 <= i < v.len() implies is_custom(b[at + i], v[i]) by {
        assert(b.take(a.len() as int)[at + i] == b[at + i]);
    }
}

/// The model list: the transcription models first, then the summary models, the
/// registry and the user's files where a local language model is built in, then
/// the speaker models where diarization is.
pub fn catalog(parts: CatalogParts, f: Features) -> (r: Vec<ModelInfo>)
    ensures
        ({
            let t = parts.transcription@.len() as int;
            let s = if f.llm_local {
                parts.summary@.len() as int
            } else {
                0
            };
            let g = if f.llm_local {
                parts.registry@.len() as int
            } else {
                0
            };
            let c = if f.llm_local {
                parts.custom@.len() as int
            } else {
                0
            };
            let d = if f.diarization {
                parts.diarization@.len() as int
            } else {
                0
            };
            &&& r@.len() == t + s + g + c + d
            &&& entries_at(r@, 0, parts.transcription@, "transcription"@)
            &&& f.llm_local ==> entries_at(r@, t, parts.summary@, "summary"@)
            &&& f.llm_local ==> entries_at(r@, t + s, parts.registry@, "summary"@)
            &&& f.llm_local ==> customs_at(r@, t + s + g, parts.custom@)
            &&& f.diarization ==> entries_at(
                r@,
                t + s + g + c,
                parts.diarization@,
                "diarization"@,
            )
        }),
{
    let ghost tv = parts.transcription@;
    let ghost sv = parts.summary@;
    let ghost gv = parts.registry@;
    let ghost cv = parts.custom@;
    let mut r: Vec<ModelInfo> = Vec::new();
    put_all(&mut r, parts.transcription, "transcription");
    let ghost r1 = r@;
    if f.llm_local {
        put_all(&mut r, parts.summary, "summary");
        let ghost r2 = r@;
        proof {
            lemma_entries_stay(r1, r2, 0, tv, "transcription"@);
        }
        put_all(&mut r, parts.registry, "summary");
        let ghost r3 = r@;
        proof {
            lemma_entries_stay(r2, r3, 0, tv, "transcription"@);
            lemma_entries_stay(r2, r3, r1.len() as int, sv, "summary"@);
        }
        put_custom(&mut r, &parts.custom);
        let ghost r4 = r@;
        proof {
            lemma_entries_stay(r3, r4, 0, tv, "transcription"@);
            lemma_entries_stay(r3, r4, r1.len() as int, sv, "summary"@);
            lemma_entries_stay(r3, r4, r2.len() as int, gv, "summary"@);
        }
    }
    let ghost r5 = r@;
    if f.diarization {
        put_all(&mut r, parts.diarization, "diarization");
        proof {
            lemma_entries_stay(r5, r@, 0, tv, "transcription"@);
            if f.llm_local {
                lemma_entries_stay(r5, r@, tv.len() as int, sv, "summary"@);
                lemma_entries_stay(r5, r@, (tv.len() + sv.len()) as int, gv, "summary"@);
                lemma_customs_stay(r5, r@, (tv.len() + sv.len() + gv.len()) as int, cv);
            }
        }
    }
    r
}

/// Which catalogs know a name.
#[derive(Debug, Clone, Copy, PartialEq, Eq, Structural)]
pub struct KnownAs {
    pub summary: bool,
    pub registry: bool,
    pub diarization: bool,
    pub transcription: bool,
}

/// Who fetches or deletes a model.
#[derive(Debug, Clone, Copy, PartialEq, Eq, Structural)]
pub enum ModelStep {
    Summary,
    Registry,
    /// A file of the user.
    Custom,
    Diarization,
    Transcription,
    /// Report the model list.
    ReportModels,
}

/// One step if a condition holds.
pub open spec fn model_if(c: bool, s: ModelStep) -> Seq<ModelStep> {
    if c {
        seq![s]
    } else {
        Seq::empty()
    }
}

/// Who fetches a model: a name that a language or a speaker model has is none of
/// a transcription model.
pub open spec fn download_of(k: KnownAs, f: Features) -> Seq<ModelStep> {
    model_if(f.llm_local && k.summary, ModelStep::Summary) + model_if(
        f.llm_local && !k.summary && k.registry,
        ModelStep::Registry,
    ) + model_if(f.diarization && k.diarization, ModelStep::Diarization) + model_if(
        !(f.llm_local && (k.summary || k.registry)) && !(f.diarization && k.diarization)
            && k.transcription,
        ModelStep::Transcription,
    ) + seq![ModelStep::ReportModels]
}

/// Who deletes a model.
pub open spec fn delete_of(k: KnownAs, f: Features) -> Seq<ModelStep> {
    model_if(f.llm_local && k.summary, ModelStep::Summary) + model_if(
        f.llm_local && !k.summary,
        ModelStep::Custom,
    ) + model_if(f.diarization && k.diarization, ModelStep::Diarization) + model_if(
        k.transcription,
        ModelStep::Transcription,
    ) + seq![ModelStep::ReportModels]
}

fn put_step(v: &mut Vec<ModelStep>, c: bool, s: ModelStep)
    ensures
        final(v)@ == old(v)@ + model_if(c, s),
{
    if c {
        v.push(s);
    }
}

/// Who fetches a model.
pub fn download_steps(k: KnownAs, f: Features) -> (r: Vec<ModelStep>)
    ensures
        r@ == download_of(k, f),
{
    let mut v: Vec<ModelStep> = Vec::new();
    let by_llm = f.llm_local && (k.summary || k.registry);
    let by_diar = f.diarization && k.diarization;
    put_step(&mut v, f.llm_local && k.summary, ModelStep::Summary);
    put_step(&mut v, f.llm_local && !k.summary && k.registry, ModelStep::Registry);
    put_step(&mut v, by_diar, ModelStep::Diarization);
    put_step(&mut v, !by_llm && !by_diar && k.transcription, ModelStep::Transcription);
    v.push(ModelStep::ReportModels);
    v
}

/// Who deletes a model.
pub fn delete_steps(k: KnownAs, f: Features) -> (r: Vec<ModelStep>)
    ensures
        r@ == delete_of(k, f),
{
    let mut v: Vec<ModelStep> = Vec::new();
    put_step(&mut v, f.llm_local && k.summary, ModelStep::Summary);
    put_step(&mut v, f.llm_local && !k.summary, ModelStep::Custom);
    put_step(&mut v, f.diarization && k.diarization, ModelStep::Diarization);
    put_step(&mut v, k.transcription, ModelStep::Transcription);
    v.push(ModelStep::ReportModels);
    v
}

/// Whatever is asked of the models, the list is reported last, so that the
/// window shows what is on disk.
pub proof fn model_changes_are_reported(k: KnownAs, f: Features)
    ensures
        download_of(k, f).last() == ModelStep::ReportModels,
        delete_of(k, f).last() == ModelStep::ReportModels,
{
}

/// The answer to a request for the models of the external server; `None` where
/// no external server is built in.
pub fn remote_models(answer: Option<Result<Vec<String>, String>>) -> (r: Event)
    ensures
        match answer {
            Some(Ok(v)) => r == (Event::RemoteModels { models: v, error: None }),
            Some(Err(e)) => r matches Event::RemoteModels { models, error } && models@.len() == 0
                && error == Some(e),
            None => r matches Event::RemoteModels { models, error } && models@.len() == 0
                && error is Some && error->0@ == "summaries aren't built in"@,
        },
{
    match answer {
        Some(Ok(models)) => Event::RemoteModels { models, error: None },
        Some(Err(e)) => Event::RemoteModels { models: Vec::new(), error: Some(e) },
        None => Event::RemoteModels {
            models: Vec::new(),
            error: Some("summaries aren't built in".to_string()),
        },
    }
}

/// A model is fetched as what it is known as: as a language model or from the registry
/// where that is built in, as a diarization model, and as a transcription model where it
/// is none of these. Deleting removes it as everything that it is known as.
pub proof fn models_are_handled_as_what_they_are(k: KnownAs, f: Features)
    ensures
        ({
            let d = download_of(k, f);
            let llm = f.llm_local && (k.summary || k.registry);
            let dia = f.diarization && k.diarization;
            &&& d.contains(ModelStep::Summary) <==> f.llm_local && k.summary
            &&& d.contains(ModelStep::Registry) <==> f.llm_local && k.registry && !k.summary
            &&& d.contains(ModelStep::Diarization) <==> dia
            &&& d.contains(ModelStep::Transcription) <==> k.transcription && !llm && !dia
            &&& !d.contains(ModelStep::Custom)
        }),
        ({
            let d = delete_of(k, f);
            &&& d.contains(ModelStep::Summary) <==> f.llm_local && k.summary
            &&& d.contains(ModelStep::Custom) <==> f.llm_local && !k.summary
            &&& d.contains(ModelStep::Diarization) <==> f.diarization && k.diarization
            &&& d.contains(ModelStep::Transcription) <==> k.transcription
            &&& !d.contains(ModelStep::Registry)
        }),
{
    broadcast use vstd::seq_lib::group_seq_properties;

    assert forall|c: bool, s: ModelStep, y: ModelStep| #[trigger] model_if(c, s).contains(y) <==> c
        && s == y by {
        if c {
            assert(seq![s][0] == s);
        }
    }
    assert(seq![ModelStep::ReportModels][0] == ModelStep::ReportModels);
}

} // verus!
