//! The language model: which backend answers, what a chat is grounded in, and
//! what becomes of summaries and compressions.

use crate::model::{Features, Session};
#[allow(unused_imports)]
use crate::number::{decimal, write_u64};
#[allow(unused_imports)]
use crate::pattern::{begins, starts_with};
use crate::settings::Settings;
#[allow(unused_imports)]
use crate::text::{blank, has_ink, inked, is_blank, same};
use vstd::prelude::*;

verus! {

// ---------------------------------------------------------------------------
// Backends
// ---------------------------------------------------------------------------

/// The connection to an external server.
#[derive(Debug, Clone)]
pub struct RemoteConfig {
    pub base_url: String,
    pub api_key: String,
    pub model: String,
    pub timeout_secs: u64,
}

/// The connection in the settings.
pub open spec fn remote_of(s: Settings) -> RemoteConfig {
    RemoteConfig {
        base_url: s.llm_base_url,
        api_key: s.llm_api_key,
        model: s.llm_model,
        timeout_secs: s.llm_timeout_secs,
    }
}

/// The connection in the settings.
pub fn remote_cfg(settings: &Settings) -> (r: RemoteConfig)
    ensures
        r == remote_of(*settings),
{
    RemoteConfig {
        base_url: settings.llm_base_url.clone(),
        api_key: settings.llm_api_key.clone(),
        model: settings.llm_model.clone(),
        timeout_secs: settings.llm_timeout_secs,
    }
}

/// Requests go to the external server: the setting decides where both backends
/// are built in, otherwise the one that is.
pub open spec fn external(s: Settings, f: Features) -> bool {
    f.llm_remote && (s.llm_backend@ == "external"@ || !f.llm_local)
}

/// Whether requests go to the external server.
pub fn use_external(settings: &Settings, features: Features) -> (r: bool)
    ensures
        r == external(*settings, features),
{
    features.llm_remote && (same(&settings.llm_backend, "external") || !features.llm_local)
}

/// How to get a backend.
#[derive(Debug, Clone)]
pub enum BackendPlan {
    /// No model is picked for the external server.
    NoModel,
    Remote(RemoteConfig),
    /// Load the local model; `warn` says that the settings ask for an external
    /// server, which is not built in.
    Local { warn: bool },
    /// No backend is built in.
    Unavailable,
}

/// How to get a backend with these settings.
pub open spec fn backend_of(s: Settings, f: Features) -> BackendPlan {
    if external(s, f) {
        if is_blank(s.llm_model@) {
            BackendPlan::NoModel
        } else {
            BackendPlan::Remote(remote_of(s))
        }
    } else if f.llm_local {
        BackendPlan::Local { warn: s.llm_backend@ == "external"@ && !f.llm_remote }
    } else {
        BackendPlan::Unavailable
    }
}

/// How to get a backend with these settings.
pub fn backend_plan(settings: &Settings, features: Features) -> (r: BackendPlan)
    ensures
        r == backend_of(*settings, features),
{
    if use_external(settings, features) {
        if blank(&settings.llm_model) {
            BackendPlan::NoModel
        } else {
            BackendPlan::Remote(remote_cfg(settings))
        }
    } else if features.llm_local {
        BackendPlan::Local {
            warn: same(&settings.llm_backend, "external") && !features.llm_remote,
        }
    } else {
        BackendPlan::Unavailable
    }
}

/// A backend is configured.
pub open spec fn configured(s: Settings, f: Features) -> bool {
    if external(s, f) {
        !is_blank(s.llm_model@)
    } else {
        f.llm_local && !is_blank(s.summary_model@)
    }
}

/// Whether a backend is configured, without building one.
pub fn llm_backend_configured(settings: &Settings, features: Features) -> (r: bool)
    ensures
        r == configured(*settings, features),
{
    if use_external(settings, features) {
        !blank(&settings.llm_model)
    } else {
        features.llm_local && !blank(&settings.summary_model)
    }
}

/// What is configured can be built: no configured backend is refused for want of
/// a model or of a built-in part.
pub proof fn configured_backends_are_buildable(s: Settings, f: Features)
    requires
        configured(s, f),
    ensures
        backend_of(s, f) is Remote || backend_of(s, f) is Local,
{
}

/// A build never switches backends behind the user's back: with both built in,
/// the setting alone decides.
pub proof fn backend_follows_the_setting(s: Settings, f: Features)
    requires
        f.llm_local,
        f.llm_remote,
    ensures
        external(s, f) <==> s.llm_backend@ == "external"@,
        backend_of(s, f) is Local <==> s.llm_backend@ != "external"@,
        !(backend_of(s, f) matches BackendPlan::Local { warn } && warn),
{
}

/// Where the local model comes from.
#[derive(Debug, Clone)]
pub enum LocalModel {
    /// A model of the catalog; download it if it is missing.
    Catalog,
    /// A file that the user put into the models folder.
    Custom(String),
    /// Neither.
    Missing,
}

/// Decides where the local model comes from: the catalog wins over a file of the
/// same name.
pub fn local_model(in_catalog: bool, custom: Option<String>) -> (r: LocalModel)
    ensures
        r == (if in_catalog {
            LocalModel::Catalog
        } else {
            match custom {
                Some(p) => LocalModel::Custom(p),
                None => LocalModel::Missing,
            }
        }),
{
    if in_catalog {
        LocalModel::Catalog
    } else {
        match custom {
            Some(p) => LocalModel::Custom(p),
            None => LocalModel::Missing,
        }
    }
}

/// The notice for a local model that is nowhere.
pub fn missing_model_text(name: &str) -> (r: String)
    ensures
        r@ == "Summary model '"@ + name@
            + "' not found — pick one in Settings or drop its .gguf in the models folder."@,
{
    let mut r = "Summary model '".to_string();
    r.push_str(name);
    r.push_str("' not found — pick one in Settings or drop its .gguf in the models folder.");
    r
}

/// What a resident chat backend was built from.
#[derive(Debug, Clone)]
pub enum ChatLlmKey {
    Local(String),
    Remote(RemoteConfig),
}

impl ChatLlmKey {
    /// Two keys name the same backend.
    pub open spec fn same_as(self, other: ChatLlmKey) -> bool {
        match (self, other) {
            (ChatLlmKey::Local(a), ChatLlmKey::Local(b)) => a@ == b@,
            (ChatLlmKey::Remote(a), ChatLlmKey::Remote(b)) => {
                &&& a.base_url@ == b.base_url@
                &&& a.api_key@ == b.api_key@
                &&& a.model@ == b.model@
                &&& a.timeout_secs == b.timeout_secs
            },
            _ => false,
        }
    }

    /// Whether two keys name the same backend.
    pub fn same(&self, other: &ChatLlmKey) -> (r: bool)
        ensures
            r == self.same_as(*other),
    {
        match (self, other) {
            (ChatLlmKey::Local(a), ChatLlmKey::Local(b)) => *a == *b,
            (ChatLlmKey::Remote(a), ChatLlmKey::Remote(b)) => a.base_url == b.base_url && a.api_key
                == b.api_key && a.model == b.model && a.timeout_secs == b.timeout_secs,
            _ => false,
        }
    }
}

/// What the chat backend is built from with these settings; `local` is the file of
/// the local model, where it was found.
pub fn chat_llm_key(settings: &Settings, features: Features, local: Option<String>) -> (r: Option<
    ChatLlmKey,
>)
    ensures
        r == (if external(*settings, features) {
            Some(ChatLlmKey::Remote(remote_of(*settings)))
        } else {
            match local {
                Some(path) if features.llm_local => Some(ChatLlmKey::Local(path)),
                _ => None,
            }
        }),
{
    if use_external(settings, features) {
        Some(ChatLlmKey::Remote(remote_cfg(settings)))
    } else {
        match local {
            Some(path) => if features.llm_local {
                Some(ChatLlmKey::Local(path))
            } else {
                None
            },
            None => None,
        }
    }
}

/// Whether the chat backend has to be built: there is none, or it was built from
/// something else.
pub fn needs_rebuild(cached: &Option<ChatLlmKey>, key: &ChatLlmKey) -> (r: bool)
    ensures
        r == !(cached matches Some(k) && k.same_as(*key)),
{
    match cached {
        Some(k) => !k.same(key),
        None => true,
    }
}

// ---------------------------------------------------------------------------
// Grounding a chat
// ---------------------------------------------------------------------------

/// Tokens kept free for the conversation, the prompt and the answer.
pub const CHAT_HEADROOM: u32 = 1400;

/// A transcript of this many tokens fits beside the conversation.
pub open spec fn fits(tokens: Option<u64>, ctx: u32) -> bool {
    tokens matches Some(t) && t + 1400 < ctx
}

/// Whether a transcript fits into the context; one that could not be counted
/// does not.
pub fn transcript_fits(tokens: Option<u64>, ctx: u32) -> (r: bool)
    ensures
        r == fits(tokens, ctx),
{
    let budget: u32 = ctx.saturating_sub(CHAT_HEADROOM);
    match tokens {
        Some(t) => t < budget as u64,
        None => false,
    }
}

/// What a chat about one meeting is grounded in.
#[derive(Debug, Clone)]
pub enum MeetingContext {
    NoTranscript,
    /// This text.
    Text(String),
    /// Compress the transcript first.
    CompressFirst,
}

/// The context of a transcript that fits.
pub open spec fn transcript_context(t: Seq<char>) -> Seq<char> {
    "Meeting transcript:\n"@ + t
}

/// The context of a compression.
pub open spec fn compression_context(c: Seq<char>) -> Seq<char> {
    "Meeting compression (dense):\n"@ + c
}

/// The context of a compression.
pub fn compression_text(c: &str) -> (r: String)
    ensures
        r@ == compression_context(c@),
{
    let mut r = "Meeting compression (dense):\n".to_string();
    r.push_str(c);
    r
}

/// What a chat about one meeting is grounded in: the transcript if it fits, else
/// the compression, which may have to be made first.
pub fn meeting_chat_context(
    lines: usize,
    transcript: &str,
    tokens: Option<u64>,
    ctx: u32,
    compressed: &Option<String>,
) -> (r: MeetingContext)
    ensures
        lines == 0 <==> r is NoTranscript,
        lines > 0 && fits(tokens, ctx) ==> (r matches MeetingContext::Text(t) && t@
            == transcript_context(transcript@)),
        lines > 0 && !fits(tokens, ctx) && has_ink(*compressed) ==> (
        r matches MeetingContext::Text(t) && t@ == compression_context(compressed->0@)),
        lines > 0 && !fits(tokens, ctx) && !has_ink(*compressed) ==> r is CompressFirst,
{
    if lines == 0 {
        return MeetingContext::NoTranscript;
    }
    if transcript_fits(tokens, ctx) {
        let mut r = "Meeting transcript:\n".to_string();
        r.push_str(transcript);
        return MeetingContext::Text(r);
    }
    if inked(compressed) {
        if let Some(c) = compressed {
            return MeetingContext::Text(compression_text(c));
        }
    }
    MeetingContext::CompressFirst
}

/// Whether a chat across meetings is grounded in the overview document; without
/// one it goes back to the compressions of the meetings.
pub fn overview_grounds_chat(doc: &str) -> (r: bool)
    ensures
        r == !is_blank(doc@),
{
    !blank(doc)
}

/// The system prompt of a chat.
pub open spec fn system_text(prompt: Seq<char>, context: Seq<char>) -> Seq<char> {
    prompt + "\n\n=== Context ===\n"@ + context
}

/// The system prompt of a chat: the instructions, then the context.
pub fn chat_system(prompt: &str, context: &str) -> (r: String)
    ensures
        r@ == system_text(prompt@, context@),
{
    let mut r = prompt.to_string();
    r.push_str("\n\n=== Context ===\n");
    r.push_str(context);
    r
}

/// Who wrote a turn.
#[derive(Debug, Clone, Copy, PartialEq, Eq, Structural)]
pub enum ChatRole {
    User,
    Assistant,
}

/// A turn is handed to the model: everything the user wrote, and answers that
/// are no error messages.
pub open spec fn is_real_turn(is_user: bool, text: Seq<char>) -> bool {
    is_user || !begins(text, "⚠️"@)
}

/// The turns that are handed to the model, in order.
pub open spec fn model_turns(turns: Seq<(bool, String)>) -> Seq<(ChatRole, String)>
    decreases turns.len(),
{
    if turns.len() == 0 {
        Seq::empty()
    } else {
        let p = model_turns(turns.drop_last());
        let (is_user, text) = turns.last();
        if is_real_turn(is_user, text@) {
            p.push(
                (
                    if is_user {
                        ChatRole::User
                    } else {
                        ChatRole::Assistant
                    },
                    text,
                ),
            )
        } else {
            p
        }
    }
}

/// The turns that are handed to the model, in order; error messages in the
/// conversation are left out.
pub fn chat_turns(turns: &Vec<(bool, String)>) -> (r: Vec<(ChatRole, String)>)
    ensures
        r@ == model_turns(turns@),
{
    let mut r: Vec<(ChatRole, String)> = Vec::new();
    let mut i: usize = 0;
    while i < turns.len()
        invariant
            i <= turns@.len(),
            r@ == model_turns(turns@.take(i as int)),
        decreases turns@.len() - i,
    {
        assert(turns@.take(i + 1).drop_last() =~= turns@.take(i as int));
        let is_user = turns[i].0;
        if is_user || !starts_with(&turns[i].1, "⚠️") {
            let role = if is_user {
                ChatRole::User
            } else {
                ChatRole::Assistant
            };
            r.push((role, turns[i].1.clone()));
        }
        i += 1;
    }
    assert(turns@.take(i as int) =~= turns@);
    r
}

/// The answer in place of one that failed.
pub open spec fn failure_text(e: Seq<char>) -> Seq<char> {
    "⚠️ Chat failed: "@ + e
}

/// The answer in place of one that failed, so that the conversation never waits
/// for nothing.
pub fn chat_failure(e: &str) -> (r: String)
    ensures
        r@ == failure_text(e@),
{
    let mut r = "⚠️ Chat failed: ".to_string();
    r.push_str(e);
    r
}

/// An answer that failed is never handed back to the model.
pub proof fn failures_are_not_fed_back(e: Seq<char>)
    ensures
        !is_real_turn(false, failure_text(e)),
{
    reveal_strlit("⚠️");
    reveal_strlit("⚠️ Chat failed: ");
    let f = failure_text(e);
    assert(f.subrange(0, "⚠️"@.len() as int) =~= "⚠️"@);
}

/// Everything the user wrote reaches the model, in order.
pub open spec fn user_texts(turns: Seq<(bool, String)>) -> Seq<String>
    decreases turns.len(),
{
    if turns.len() == 0 {
        Seq::empty()
    } else if turns.last().0 {
        user_texts(turns.drop_last()).push(turns.last().1)
    } else {
        user_texts(turns.drop_last())
    }
}

/// The user's texts among what the model gets.
pub open spec fn user_part(turns: Seq<(ChatRole, String)>) -> Seq<String>
    decreases turns.len(),
{
    if turns.len() == 0 {
        Seq::empty()
    } else if turns.last().0 == ChatRole::User {
        user_part(turns.drop_last()).push(turns.last().1)
    } else {
        user_part(turns.drop_last())
    }
}

/// No question is dropped or reordered on its way to the model.
pub proof fn questions_reach_the_model(turns: Seq<(bool, String)>)
    ensures
        user_part(model_turns(turns)) == user_texts(turns),
    decreases turns.len(),
{
    if turns.len() > 0 {
        questions_reach_the_model(turns.drop_last());
        let p = model_turns(turns.drop_last());
        let (is_user, text) = turns.last();
        if is_real_turn(is_user, text@) {
            let t = model_turns(turns);
            assert(t.drop_last() =~= p);
        }
    }
}

// ---------------------------------------------------------------------------
// Summaries and compressions
// ---------------------------------------------------------------------------

/// What happens after a generation.
#[derive(Debug, Clone)]
pub enum Generated {
    /// The job was cancelled meanwhile: nothing is stored.
    Discard,
    /// Store the text, report it, and mirror the session if `mirror` is set.
    Store { text: String, mirror: bool },
    /// The model failed, for this reason.
    Failed(String),
}

/// Decides what becomes of a generated text. A failure is reported even if the
/// job was cancelled; a text is not.
pub fn after_generation(
    result: Result<String, String>,
    cancelled: bool,
    kb_dir: &str,
) -> (r: Generated)
    ensures
        r == (match result {
            Err(e) => Generated::Failed(e),
            Ok(text) => if cancelled {
                Generated::Discard
            } else {
                Generated::Store { text, mirror: kb_dir@.len() > 0 }
            },
        }),
{
    match result {
        Err(e) => Generated::Failed(e),
        Ok(text) => {
            if cancelled {
                Generated::Discard
            } else {
                Generated::Store { text, mirror: kb_dir.unicode_len() > 0 }
            }
        },
    }
}

/// Whether a new summary also gives the session its title: only if that is
/// turned on and the user has not named the session.
pub fn wants_title(auto_title: bool, session: &Option<Session>) -> (r: bool)
    ensures
        r == (auto_title && (session matches Some(s) && !has_ink(s.title))),
{
    if !auto_title {
        return false;
    }
    match session {
        Some(s) => !inked(&s.title),
        None => false,
    }
}

/// The sessions that are compressed again: ended ones with a transcript, from
/// the end of the list, which is the oldest.
pub open spec fn recompressed(sessions: Seq<Session>, lines: Seq<usize>) -> Seq<usize>
    decreases sessions.len(),
{
    if sessions.len() == 0 {
        Seq::empty()
    } else {
        let last = (sessions.len() - 1) as usize;
        let rest = recompressed(sessions.drop_last(), lines);
        if sessions.last().ended_at is Some && lines[last as int] > 0 {
            seq![last] + rest
        } else {
            rest
        }
    }
}

/// The places of the sessions that are compressed again, the oldest first.
/// `lines` holds the number of transcript lines of each session.
pub fn recompress_order(sessions: &Vec<Session>, lines: &Vec<usize>) -> (r: Vec<usize>)
    requires
        lines@.len() == sessions@.len(),
    ensures
        r@ == recompressed(sessions@, lines@),
{
    let mut r: Vec<usize> = Vec::new();
    let mut i: usize = sessions.len();
    assert(sessions@.take(i as int) =~= sessions@);
    while i > 0
        invariant
            i <= sessions@.len(),
            lines@.len() == sessions@.len(),
            recompressed(sessions@, lines@) == r@ + recompressed(sessions@.take(i as int), lines@),
        decreases i,
    {
        let ghost t = sessions@.take(i as int);
        assert(t.drop_last() =~= sessions@.take(i - 1));
        if sessions[i - 1].ended_at.is_some() && lines[i - 1] > 0 {
            let ghost was = r@;
            r.push(i - 1);
            assert(was + (seq![(i - 1) as usize] + recompressed(sessions@.take(i - 1), lines@))
                =~= r@ + recompressed(sessions@.take(i - 1), lines@));
        }
        i -= 1;
    }
    assert(r@ + recompressed(sessions@.take(0), lines@) =~= r@);
    r
}

/// The notice before each session that is compressed again; `i` counts from
/// zero.
pub fn recompress_progress(i: usize, total: usize) -> (r: String)
    requires
        i < usize::MAX,
    ensures
        r@ == "Re-compressing session "@ + decimal(i as nat + 1) + "/"@ + decimal(total as nat)
            + "…"@,
{
    let mut r = "Re-compressing session ".to_string();
    r.push_str(&write_u64((i + 1) as u64));
    r.push_str("/");
    r.push_str(&write_u64(total as u64));
    r.push_str("…");
    r
}

// ---------------------------------------------------------------------------
// Notices
// ---------------------------------------------------------------------------

/// What the writing worker reports.
#[derive(Debug, Clone, Copy, PartialEq, Eq, Structural)]
pub enum WritingNotice {
    NotBuilt,
    NoModel,
    ExternalNotBuilt,
    NothingToCompress,
    PreparingCompression,
    Compressing,
    Compressed,
    NothingToSummarize,
    Preparing,
    Summarizing,
    PreparingOverview,
    OverviewUpToDate,
    OverviewKept,
    NoTranscript,
    CompressingForChat,
    Thinking,
}

impl WritingNotice {
    /// The text of a notice.
    pub fn text(self) -> (r: &'static str)
        ensures
            r@ == (match self {
                WritingNotice::NotBuilt =>
                    "AI features aren't built in — rebuild with `--features llm-local` and/or `--features llm-remote`."@,
                WritingNotice::NoModel =>
                    "No model picked for the external LLM server — choose one in Settings → AI."@,
                WritingNotice::ExternalNotBuilt =>
                    "External LLM support isn't built into this binary — using the local model."@,
                WritingNotice::NothingToCompress => "Nothing to compress in this session."@,
                WritingNotice::PreparingCompression => "Preparing the LLM for compression…"@,
                WritingNotice::Compressing => "Compressing… (runs in the background)"@,
                WritingNotice::Compressed => "Compressed."@,
                WritingNotice::NothingToSummarize => "Nothing to summarize in this session."@,
                WritingNotice::Preparing => "Preparing the LLM…"@,
                WritingNotice::Summarizing => "Summarizing…"@,
                WritingNotice::PreparingOverview => "Preparing the LLM for overview update…"@,
                WritingNotice::OverviewUpToDate =>
                    "Overview is up to date — no new sessions to fold."@,
                WritingNotice::OverviewKept =>
                    "overview update looked destructive — kept the previous document"@,
                WritingNotice::NoTranscript => "This session has no transcript to chat about."@,
                WritingNotice::CompressingForChat =>
                    "Long meeting — compressing it first to chat…"@,
                WritingNotice::Thinking => "Thinking…"@,
            }),
    {
        match self {
            WritingNotice::NotBuilt =>
                "AI features aren't built in — rebuild with `--features llm-local` and/or `--features llm-remote`.",
            WritingNotice::NoModel =>
                "No model picked for the external LLM server — choose one in Settings → AI.",
            WritingNotice::ExternalNotBuilt =>
                "External LLM support isn't built into this binary — using the local model.",
            WritingNotice::NothingToCompress => "Nothing to compress in this session.",
            WritingNotice::PreparingCompression => "Preparing the LLM for compression…",
            WritingNotice::Compressing => "Compressing… (runs in the background)",
            WritingNotice::Compressed => "Compressed.",
            WritingNotice::NothingToSummarize => "Nothing to summarize in this session.",
            WritingNotice::Preparing => "Preparing the LLM…",
            WritingNotice::Summarizing => "Summarizing…",
            WritingNotice::PreparingOverview => "Preparing the LLM for overview update…",
            WritingNotice::OverviewUpToDate => "Overview is up to date — no new sessions to fold.",
            WritingNotice::OverviewKept =>
                "overview update looked destructive — kept the previous document",
            WritingNotice::NoTranscript => "This session has no transcript to chat about.",
            WritingNotice::CompressingForChat => "Long meeting — compressing it first to chat…",
            WritingNotice::Thinking => "Thinking…",
        }
    }
}

// ---------------------------------------------------------------------------
// What the model is asked
// ---------------------------------------------------------------------------

/// The connection is the one in the settings, field by field.
pub proof fn connections_are_the_settings(s: Settings, f: Features)
    ensures
        remote_of(s).base_url@ == s.llm_base_url@ && remote_of(s).api_key@ == s.llm_api_key@
            && remote_of(s).model@ == s.llm_model@ && remote_of(s).timeout_secs
            == s.llm_timeout_secs,
        backend_of(s, f) matches BackendPlan::Remote(c) ==> c == remote_of(s) && f.llm_remote
            && !is_blank(s.llm_model@),
        backend_of(s, f) is Local ==> f.llm_local,
        backend_of(s, f) matches BackendPlan::Local { warn } ==> (warn <==> s.llm_backend@
            == "external"@),
        backend_of(s, f) is Unavailable <==> !f.llm_local && !f.llm_remote,
        backend_of(s, f) is NoModel <==> external(s, f) && is_blank(s.llm_model@),
{
}

/// With one backend built in, that one is used whatever the setting says; a backend
/// counts as configured once its model is named.
pub proof fn the_backend_that_is_there_is_used(s: Settings, f: Features)
    ensures
        f.llm_remote && !f.llm_local ==> external(s, f),
        !f.llm_remote ==> !external(s, f),
        external(s, f) ==> (configured(s, f) <==> !is_blank(s.llm_model@)),
        !external(s, f) && f.llm_local ==> (configured(s, f) <==> !is_blank(s.summary_model@)),
        !f.llm_local && !f.llm_remote ==> !configured(s, f),
{
}

/// Two keys name one backend exactly if nothing that it is built from differs.
pub proof fn any_change_is_another_backend(a: RemoteConfig, b: RemoteConfig, x: String, y: String)
    ensures
        ChatLlmKey::Remote(a).same_as(ChatLlmKey::Remote(b)) <==> a.base_url@ == b.base_url@
            && a.api_key@ == b.api_key@ && a.model@ == b.model@ && a.timeout_secs == b.timeout_secs,
        ChatLlmKey::Local(x).same_as(ChatLlmKey::Local(y)) <==> x@ == y@,
        !ChatLlmKey::Local(x).same_as(ChatLlmKey::Remote(a)),
        !ChatLlmKey::Remote(a).same_as(ChatLlmKey::Local(x)),
{
}

/// A transcript fits if fourteen hundred tokens and more are left beside it; one that
/// was not counted does not fit. A shorter one, or a larger context, fits as well.
pub proof fn fitting_leaves_headroom(t: u64, less: u64, ctx: u32, more: u32)
    requires
        less <= t,
        ctx <= more,
    ensures
        !fits(None, ctx),
        fits(Some(t), ctx) <==> ctx - t > 1400,
        fits(Some(t), ctx) ==> fits(Some(less), more),
{
}

/// A chat is grounded in the text itself, under a heading that says what it is, behind
/// the instructions.
pub proof fn chats_hold_their_context(prompt: Seq<char>, t: Seq<char>)
    ensures
        begins(system_text(prompt, t), prompt),
        crate::pattern::finishes(system_text(prompt, t), "\n\n=== Context ===\n"@ + t),
        system_text(prompt, t).len() == prompt.len() + "\n\n=== Context ===\n"@.len() + t.len(),
        transcript_context(t) == "Meeting transcript:\n"@ + t,
        compression_context(t) == "Meeting compression (dense):\n"@ + t,
        failure_text(t) == "⚠️ Chat failed: "@ + t,
{
    let tail = "\n\n=== Context ===\n"@ + t;
    assert(system_text(prompt, t) =~= prompt + tail);
    crate::pattern::texts_stand_where_their_characters_do(prompt, tail, 0);
}

/// The model gets the conversation turn by turn, each with who wrote it; only answers
/// that begin with the warning sign are left out.
pub proof fn turns_reach_the_model(
    a: Seq<(bool, String)>,
    b: Seq<(bool, String)>,
    text: String,
)
    ensures
        model_turns(a + b) == model_turns(a) + model_turns(b),
        model_turns(seq![(true, text)]) == seq![(ChatRole::User, text)],
        !begins(text@, "⚠️"@) ==> model_turns(seq![(false, text)]) == seq![
            (ChatRole::Assistant, text),
        ],
        begins(text@, "⚠️"@) ==> model_turns(seq![(false, text)]).len() == 0,
    decreases b.len(),
{
    let u = seq![(true, text)];
    let v = seq![(false, text)];
    assert(u.drop_last() =~= Seq::empty());
    assert(v.drop_last() =~= Seq::empty());
    assert(model_turns(u.drop_last()) =~= Seq::<(ChatRole, String)>::empty());
    assert(model_turns(v.drop_last()) =~= Seq::<(ChatRole, String)>::empty());
    assert(model_turns(u) =~= seq![(ChatRole::User, text)]);
    if !begins(text@, "⚠️"@) {
        assert(model_turns(v) =~= seq![(ChatRole::Assistant, text)]);
    }
    if b.len() == 0 {
        assert(a + b =~= a);
        assert(model_turns(a) + model_turns(b) =~= model_turns(a));
    } else {
        assert((a + b).drop_last() =~= a + b.drop_last());
        turns_reach_the_model(a, b.drop_last(), text);
        assert(model_turns(a + b) =~= model_turns(a) + model_turns(b));
    }
}

/// Exactly the ended sessions with a transcript are compressed again, each once, from
/// the end of the list to its beginning.
pub proof fn recompression_takes_every_transcript(sessions: Seq<Session>, lines: Seq<usize>)
    requires
        sessions.len() <= usize::MAX,
        lines.len() == sessions.len(),
    ensures
        forall|p: usize| #[trigger]
            recompressed(sessions, lines).contains(p) <==> p < sessions.len()
                && sessions[p as int].ended_at is Some && lines[p as int] > 0,
        forall|i: int, j: int|
            #![trigger recompressed(sessions, lines)[i], recompressed(sessions, lines)[j]]
            0 <= i < j < recompressed(sessions, lines).len() ==> recompressed(sessions, lines)[i]
                > recompressed(sessions, lines)[j],
{
    lemma_recompressed(sessions, lines);
}

proof fn lemma_recompressed(sessions: Seq<Session>, lines: Seq<usize>)
    requires
        sessions.len() <= usize::MAX,
        lines.len() >= sessions.len(),
    ensures
        forall|p: usize| #[trigger]
            recompressed(sessions, lines).contains(p) <==> p < sessions.len()
                && sessions[p as int].ended_at is Some && lines[p as int] > 0,
        forall|i: int, j: int|
            #![trigger recompressed(sessions, lines)[i], recompressed(sessions, lines)[j]]
            0 <= i < j < recompressed(sessions, lines).len() ==> recompressed(sessions, lines)[i]
                > recompressed(sessions, lines)[j],
    decreases sessions.len(),
{
    let r = recompressed(sessions, lines);
    if sessions.len() > 0 {
        let h = sessions.drop_last();
        let q = recompressed(h, lines);
        lemma_recompressed(h, lines);
        let last = (sessions.len() - 1) as usize;
        let due = sessions.last().ended_at is Some && lines[last as int] > 0;
        assert(due ==> r == seq![last] + q);
        assert(!due ==> r == q);
        assert forall|p: usize| #[trigger] r.contains(p) <==> p < sessions.len()
            && sessions[p as int].ended_at is Some && lines[p as int] > 0 by {
            assert(q.contains(p) <==> p < h.len() && h[p as int].ended_at is Some
                && lines[p as int] > 0);
            if due {
                assert(r[0] == last);
                if q.contains(p) {
                    let k = choose|k: int| 0 <= k < q.len() && q[k] == p;
                    assert(r[k + 1] == p);
                }
                if r.contains(p) && p != last {
                    let k = choose|k: int| 0 <= k < r.len() && r[k] == p;
                    assert(q[k - 1] == p);
                }
            }
        }
        assert forall|i: int, j: int| #![trigger r[i], r[j]] 0 <= i < j < r.len() implies r[i]
            > r[j] by {
            if due {
                assert(r[j] == q[j - 1]);
                if i > 0 {
                    assert(r[i] == q[i - 1]);
                } else {
                    assert(q.contains(q[j - 1]));
                }
            }
        }
    } else {
        assert(r =~= Seq::empty());
    }
}

} // verus!
