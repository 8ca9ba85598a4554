//! What the settings pages, the icon rail and the side panels show.

use crate::llm::use_external;
#[allow(unused_imports)]
use crate::llm::external;
use crate::model::{Features, ModelInfo};
use crate::settings::Settings;
#[allow(unused_imports)]
use crate::text::{blank, copy_all, is_blank, same};
use crate::ui::{JobView, Screen};
use vstd::prelude::*;

verus! {

// ---------------------------------------------------------------------------
// Settings pages
// ---------------------------------------------------------------------------

/// The sections of the settings pages.
#[derive(Debug, Clone, Copy, PartialEq, Eq, Structural)]
pub enum Section {
    Theme,
    Transcription,
    AudioInput,
    Levels,
    Retention,
    Ai,
    Speakers,
    Encryption,
    Integrations,
    Files,
    About,
}

/// The sections of a page.
pub open spec fn page(tab: Seq<char>) -> Seq<Section> {
    if tab == "theme"@ {
        seq![Section::Theme]
    } else if tab == "transcription"@ {
        seq![Section::Transcription]
    } else if tab == "recording"@ {
        seq![Section::AudioInput, Section::Levels, Section::Retention]
    } else if tab == "ai"@ {
        seq![Section::Ai]
    } else if tab == "speakers"@ {
        seq![Section::Speakers]
    } else if tab == "security"@ {
        seq![Section::Encryption]
    } else if tab == "integrations"@ {
        seq![Section::Integrations]
    } else if tab == "files"@ {
        seq![Section::Files]
    } else if tab == "about"@ {
        seq![Section::About]
    } else {
        Seq::empty()
    }
}

/// The sections of a page.
pub fn sections(tab: &str) -> (r: Vec<Section>)
    ensures
        r@ == page(tab@),
{
    if same(tab, "theme") {
        vec![Section::Theme]
    } else if same(tab, "transcription") {
        vec![Section::Transcription]
    } else if same(tab, "recording") {
        vec![Section::AudioInput, Section::Levels, Section::Retention]
    } else if same(tab, "ai") {
        vec![Section::Ai]
    } else if same(tab, "speakers") {
        vec![Section::Speakers]
    } else if same(tab, "security") {
        vec![Section::Encryption]
    } else if same(tab, "integrations") {
        vec![Section::Integrations]
    } else if same(tab, "files") {
        vec![Section::Files]
    } else if same(tab, "about") {
        vec![Section::About]
    } else {
        Vec::new()
    }
}

/// The models of a kind, in the order of the list.
pub open spec fn of_kind(models: Seq<ModelInfo>, kind: Seq<char>) -> Seq<ModelInfo>
    decreases models.len(),
{
    if models.len() == 0 {
        Seq::empty()
    } else {
        let p = of_kind(models.drop_last(), kind);
        if models.last().kind@ == kind {
            p.push(models.last())
        } else {
            p
        }
    }
}

/// The models of a kind, in the order of the list.
pub fn models_of<'a>(models: &'a Vec<ModelInfo>, kind: &str) -> (r: Vec<&'a ModelInfo>)
    ensures
        r@.len() == of_kind(models@, kind@).len(),
        forall|i: int| 0 <= i < r@.len() ==> *#[trigger] r@[i] == of_kind(models@, kind@)[i],
{
    let mut r: Vec<&'a ModelInfo> = Vec::new();
    let mut i: usize = 0;
    while i < models.len()
        invariant
            i <= models@.len(),
            r@.len() == of_kind(models@.take(i as int), kind@).len(),
            forall|k: int|
                0 <= k < r@.len() ==> *#[trigger] r@[k] == of_kind(
                    models@.take(i as int),
                    kind@,
                )[k],
        decreases models@.len() - i,
    {
        assert(models@.take(i + 1).drop_last() =~= models@.take(i as int));
        if same(&models[i].kind, kind) {
            r.push(&models[i]);
        }
        i += 1;
    }
    assert(models@.take(i as int) =~= models@);
    r
}

/// What a model row offers.
#[derive(Debug, Clone, Copy, PartialEq, Eq, Structural)]
pub enum ModelRow {
    /// It is on disk. A model that is in use can neither be picked again nor be
    /// deleted.
    Present { in_use: bool },
    /// It is being fetched; so many percent are here.
    Fetching(u8),
    /// It can be fetched.
    Absent,
}

/// The progress of a model.
pub open spec fn progress_of(progress: Option<(String, u8)>, name: Seq<char>) -> Option<u8> {
    match progress {
        Some((n, p)) => if n@ == name {
            Some(p)
        } else {
            None
        },
        None => None,
    }
}

/// What a model row offers.
pub fn model_row(m: &ModelInfo, in_use: bool, progress: &Option<(String, u8)>) -> (r: ModelRow)
    ensures
        r == (if m.downloaded {
            ModelRow::Present { in_use }
        } else {
            match progress_of(*progress, m.name@) {
                Some(p) => ModelRow::Fetching(p),
                None => ModelRow::Absent,
            }
        }),
{
    if m.downloaded {
        return ModelRow::Present { in_use };
    }
    match progress {
        Some((n, p)) => if same(n, &m.name) {
            ModelRow::Fetching(*p)
        } else {
            ModelRow::Absent
        },
        None => ModelRow::Absent,
    }
}

/// The roles of a transcription model: used while recording, used afterwards.
pub fn model_roles(settings: &Settings, name: &str) -> (r: (bool, bool))
    ensures
        r == (settings.model@ == name@, settings.retranscribe_model@ == name@),
{
    (same(&settings.model, name), same(&settings.retranscribe_model, name))
}

/// The addresses of a model whose download failed.
pub open spec fn urls_of(models: Seq<ModelInfo>, name: Seq<char>) -> Seq<String>
    decreases models.len(),
{
    if models.len() == 0 {
        Seq::empty()
    } else if models[0].name@ == name {
        models[0].urls@
    } else {
        urls_of(models.skip(1), name)
    }
}

/// The addresses of a model whose download failed.
pub fn download_urls(models: &Vec<ModelInfo>, failed: &str) -> (r: Vec<String>)
    ensures
        r@ == urls_of(models@, failed@),
{
    let mut i: usize = 0;
    assert(models@.skip(0) =~= models@);
    while i < models.len()
        invariant
            i <= models@.len(),
            urls_of(models@, failed@) == urls_of(models@.skip(i as int), failed@),
        decreases models@.len() - i,
    {
        if same(&models[i].name, failed) {
            return copy_all(&models[i].urls);
        }
        assert(models@.skip(i as int).skip(1) =~= models@.skip(i + 1));
        i += 1;
    }
    Vec::new()
}

/// What the page about the language model shows.
#[derive(Debug, Clone, Copy, PartialEq, Eq, Structural)]
pub enum AiPage {
    /// No backend is built in.
    Unavailable,
    /// The local models; `choice` says that both backends are built in.
    Local { choice: bool },
    /// The external server.
    External { choice: bool },
}

/// What the page about the language model shows.
pub fn ai_page(settings: &Settings, f: Features) -> (r: AiPage)
    ensures
        r == (if !f.llm_local && !f.llm_remote {
            AiPage::Unavailable
        } else if external(*settings, f) {
            AiPage::External { choice: f.llm_local && f.llm_remote }
        } else {
            AiPage::Local { choice: f.llm_local && f.llm_remote }
        }),
{
    if !f.llm_local && !f.llm_remote {
        return AiPage::Unavailable;
    }
    let choice = f.llm_local && f.llm_remote;
    if use_external(settings, f) {
        AiPage::External { choice }
    } else {
        AiPage::Local { choice }
    }
}

/// The choices of the model of the external server.
#[derive(Debug, Clone)]
pub struct RemoteChoices {
    /// The saved choice stands on its own, since the server does not list it.
    pub show_saved: bool,
    /// There is nothing to choose from yet.
    pub placeholder: bool,
    /// Which of the listed models is the saved one.
    pub selected: Vec<bool>,
}

/// The list holds this text.
pub open spec fn lists(v: Seq<String>, t: Seq<char>) -> bool {
    exists|i: int| 0 <= i < v.len() && (#[trigger] v[i])@ == t
}

/// The choices of the model of the external server. The saved choice stays
/// visible before the server was asked, and when it does not list it.
pub fn remote_choices(saved: &str, listed: &Vec<String>) -> (r: RemoteChoices)
    ensures
        r.show_saved == (!is_blank(saved@) && !lists(listed@, saved@)),
        r.placeholder == (listed@.len() == 0 && is_blank(saved@)),
        r.selected@.len() == listed@.len(),
        forall|i: int|
            0 <= i < listed@.len() ==> #[trigger] r.selected@[i] == (listed@[i]@ == saved@),
{
    let mut selected: Vec<bool> = Vec::new();
    let mut found = false;
    let mut i: usize = 0;
    while i < listed.len()
        invariant
            i <= listed@.len(),
            selected@.len() == i,
            forall|k: int| 0 <= k < i ==> #[trigger] selected@[k] == (listed@[k]@ == saved@),
            found == exists|k: int| 0 <= k < i && (#[trigger] listed@[k])@ == saved@,
        decreases listed@.len() - i,
    {
        let hit = same(&listed[i], saved);
        if hit {
            assert(listed@[i as int]@ == saved@);
        }
        found = found || hit;
        selected.push(hit);
        i += 1;
    }
    let none = blank(saved);
    RemoteChoices { show_saved: !none && !found, placeholder: listed.len() == 0 && none, selected }
}

/// What stands before the list of applications.
#[derive(Debug, Clone, Copy, PartialEq, Eq, Structural)]
pub enum AppHint {
    /// None is picked.
    Choose,
    /// The picked one is not in the list.
    NotRunning,
    /// The picked one is in the list.
    Listed,
}

/// An application of the list has this id.
pub open spec fn runs(apps: Seq<(String, String)>, id: Seq<char>) -> bool {
    exists|i: int| 0 <= i < apps.len() && (#[trigger] apps[i]).0@ == id
}

/// What stands before the list of applications.
pub fn app_hint(picked: &str, apps: &Vec<(String, String)>) -> (r: AppHint)
    ensures
        r == (if picked@.len() == 0 {
            AppHint::Choose
        } else if runs(apps@, picked@) {
            AppHint::Listed
        } else {
            AppHint::NotRunning
        }),
{
    if picked.unicode_len() == 0 {
        return AppHint::Choose;
    }
    let mut i: usize = 0;
    while i < apps.len()
        invariant
            i <= apps@.len(),
            picked@.len() > 0,
            forall|k: int| 0 <= k < i ==> (#[trigger] apps@[k]).0@ != picked@,
        decreases apps@.len() - i,
    {
        if same(&apps[i].0, picked) {
            assert(apps@[i as int].0@ == picked@);
            return AppHint::Listed;
        }
        i += 1;
    }
    AppHint::NotRunning
}

/// What a look for updates gave.
#[derive(Debug, Clone)]
pub enum UpdateAnswer {
    Found { version: String },
    UpToDate { version: String },
    CheckError { why: String },
    CheckFailed,
    Installed,
    InstallError { why: String },
    InstallFailed,
}

/// The notice about it.
pub fn update_notice(a: &UpdateAnswer) -> (r: String)
    ensures
        r@ == (match *a {
            UpdateAnswer::Found { version } => "Update available: v"@ + version@,
            UpdateAnswer::UpToDate { version } => "You're up to date (v"@ + version@ + ")."@,
            UpdateAnswer::CheckError { why } => why@,
            UpdateAnswer::CheckFailed => "update check failed"@,
            UpdateAnswer::Installed => "Update installed — restart Zord to finish."@,
            UpdateAnswer::InstallError { why } => "update failed: "@ + why@,
            UpdateAnswer::InstallFailed => "update failed"@,
        }),
{
    match a {
        UpdateAnswer::Found { version } => {
            let mut r = "Update available: v".to_string();
            r.push_str(version);
            r
        },
        UpdateAnswer::UpToDate { version } => {
            let mut r = "You're up to date (v".to_string();
            r.push_str(version);
            r.push_str(").");
            r
        },
        UpdateAnswer::CheckError { why } => why.clone(),
        UpdateAnswer::CheckFailed => "update check failed".to_string(),
        UpdateAnswer::Installed => "Update installed — restart Zord to finish.".to_string(),
        UpdateAnswer::InstallError { why } => {
            let mut r = "update failed: ".to_string();
            r.push_str(why);
            r
        },
        UpdateAnswer::InstallFailed => "update failed".to_string(),
    }
}

// ---------------------------------------------------------------------------
// Rail and panels
// ---------------------------------------------------------------------------

/// The buttons of the icon rail.
#[derive(Debug, Clone, Copy, PartialEq, Eq, Structural)]
pub struct Rail {
    pub overview_active: bool,
    pub search_active: bool,
    /// The button of the speakers is there.
    pub speakers: bool,
    pub speakers_active: bool,
    /// The button of the jobs is there.
    pub jobs: bool,
}

/// The buttons of the icon rail.
pub fn rail(screen: &Screen, jobs: &Vec<JobView>, f: Features) -> (r: Rail)
    ensures
        r.overview_active == (*screen is Overview),
        r.search_active == (*screen is Search),
        r.speakers == f.voiceprints,
        r.speakers_active == (f.voiceprints && *screen is Speakers),
        r.jobs == (jobs@.len() > 0),
{
    let (overview, search, speakers) = match screen {
        Screen::Overview => (true, false, false),
        Screen::Search => (false, true, false),
        Screen::Speakers => (false, false, true),
        _ => (false, false, false),
    };
    Rail {
        overview_active: overview,
        search_active: search,
        speakers: f.voiceprints,
        speakers_active: f.voiceprints && speakers,
        jobs: jobs.len() > 0,
    }
}

/// The panel of a summary or a compression is shown on a session and on the
/// running recording; its text can be deleted only on a saved session. Gives
/// nothing where no panel is shown, else the session whose text can be deleted.
pub fn text_panel(screen: &Screen, has_text: bool) -> (r: Option<Option<String>>)
    ensures
        r == (if !has_text {
            None
        } else {
            match *screen {
                Screen::Session(id) => Some(Some(id)),
                Screen::Live => Some(None),
                _ => None,
            }
        }),
{
    if !has_text {
        return None;
    }
    match screen {
        Screen::Session(id) => Some(Some(id.clone())),
        Screen::Live => Some(None),
        _ => None,
    }
}

/// How long a job has run, in seconds.
pub fn job_elapsed(job: &JobView, now_ms: u64) -> (r: u64)
    ensures
        r == (if now_ms >= job.started_at {
            (now_ms - job.started_at) / 1000
        } else {
            0
        }),
{
    now_ms.saturating_sub(job.started_at) / 1000
}

/// The models of a kind are those with that name for it, in the order of the list.
pub proof fn models_are_listed_by_kind(
    a: Seq<ModelInfo>,
    b: Seq<ModelInfo>,
    m: ModelInfo,
    kind: Seq<char>,
)
    ensures
        of_kind(a + b, kind) == of_kind(a, kind) + of_kind(b, kind),
        m.kind@ == kind ==> of_kind(seq![m], kind) == seq![m],
        m.kind@ != kind ==> of_kind(seq![m], kind).len() == 0,
    decreases b.len(),
{
    let one = seq![m];
    assert(one.drop_last() =~= Seq::empty());
    assert(of_kind(one.drop_last(), kind) =~= Seq::<ModelInfo>::empty());
    if m.kind@ == kind {
        assert(of_kind(one, kind) =~= one);
    }
    if b.len() == 0 {
        assert(a + b =~= a);
        assert(of_kind(a, kind) + of_kind(b, kind) =~= of_kind(a, kind));
    } else {
        assert((a + b).drop_last() =~= a + b.drop_last());
        models_are_listed_by_kind(a, b.drop_last(), m, kind);
        assert(of_kind(a + b, kind) =~= of_kind(a, kind) + of_kind(b, kind));
    }
}

/// A failed download shows the addresses of the first model with its name; progress is
/// shown for the model that is fetched and for no other.
pub proof fn downloads_belong_to_their_model(
    models: Seq<ModelInfo>,
    i: int,
    name: Seq<char>,
    n: String,
    p: u8,
)
    ensures
        0 <= i < models.len() && models[i].name@ == name && (forall|j: int|
            0 <= j < i ==> (#[trigger] models[j]).name@ != name) ==> urls_of(models, name)
            == models[i].urls@,
        (forall|j: int| 0 <= j < models.len() ==> (#[trigger] models[j]).name@ != name) ==> urls_of(
            models,
            name,
        ).len() == 0,
        n@ == name ==> progress_of(Some((n, p)), name) == Some(p),
        n@ != name ==> progress_of(Some((n, p)), name) is None,
        progress_of(None, name) is None,
    decreases models.len(),
{
    if models.len() > 0 && models[0].name@ != name {
        let t = models.skip(1);
        downloads_belong_to_their_model(t, i - 1, name, n, p);
        if forall|j: int| 0 <= j < i ==> (#[trigger] models[j]).name@ != name {
            assert forall|j: int| 0 <= j < i - 1 && j < t.len() implies (#[trigger] t[j]).name@
                != name by {
                assert(t[j] == models[j + 1]);
            }
        }
        if forall|j: int| 0 <= j < models.len() ==> (#[trigger] models[j]).name@ != name {
            assert forall|j: int| 0 <= j < t.len() implies (#[trigger] t[j]).name@ != name by {
                assert(t[j] == models[j + 1]);
            }
        }
        if 0 < i < models.len() {
            assert(t[i - 1] == models[i]);
        }
    } else if models.len() > 0 {
        if 0 < i < models.len() && forall|j: int|
            0 <= j < i ==> (#[trigger] models[j]).name@ != name {
            assert(models[0].name@ != name);
        }
    }
}

/// Every section of the settings stands on one page.
pub proof fn sections_stand_on_one_page(a: Seq<char>, b: Seq<char>, x: Section)
    requires
        page(a).contains(x),
        page(b).contains(x),
    ensures
        a == b,
{
}

} // verus!
