//! The diagnostic bundle: settings without secrets, a description of the system,
//! and the logs.

use crate::model::Features;
#[allow(unused_imports)]
use crate::number::{decimal, write_u64};
#[allow(unused_imports)]
use crate::pattern::{begins, join, joined, starts_with, views};
#[allow(unused_imports)]
use crate::text::{chars_of, text_of};
use vstd::prelude::*;

verus! {

// ---------------------------------------------------------------------------
// Settings without secrets
// ---------------------------------------------------------------------------

/// `serde_json::Value`: a JSON value.
#[verifier::external_type_specification]
#[verifier::external_body]
pub struct ExValue(serde_json::Value);

/// `serde_json::Error`: why a text is no JSON.
#[verifier::external_type_specification]
#[verifier::external_body]
pub struct ExError(serde_json::Error);

/// What a JSON value holds.
#[verifier::ext_equal]
pub enum Json {
    Null,
    Bool(bool),
    Integer(int),
    /// A number with a fraction or an exponent, by the text that `serde_json` writes
    /// for it.
    Float(Seq<char>),
    Text(Seq<char>),
    List(Seq<Json>),
    Object(Map<Seq<char>, Json>),
}

/// Arrays and objects are nested at most `n` deep.
pub open spec fn nested(j: Json, n: nat) -> bool
    decreases n,
{
    match j {
        Json::List(s) => n > 0 && forall|i: int|
            0 <= i < s.len() ==> nested(#[trigger] s[i], (n - 1) as nat),
        Json::Object(m) => n > 0 && forall|k: Seq<char>|
            m.contains_key(k) ==> nested(#[trigger] m[k], (n - 1) as nat),
        _ => true,
    }
}

/// Every number with a fraction or an exponent, at any depth, is written as a text
/// that `p` accepts.
pub open spec fn floats_are(j: Json, p: spec_fn(Seq<char>) -> bool) -> bool
    decreases j,
{
    match j {
        Json::Float(t) => p(t),
        Json::List(s) => forall|i: int| 0 <= i < s.len() ==> floats_are(#[trigger] s[i], p),
        Json::Object(m) => forall|k: Seq<char>|
            m.contains_key(k) ==> floats_are(#[trigger] m[k], p),
        _ => true,
    }
}

/// No number is written with an exponent.
pub open spec fn without_exponents(j: Json) -> bool {
    floats_are(j, |t: Seq<char>| !t.contains('e'))
}

/// Every number with a fraction is written without an exponent, in at most sixteen
/// characters.
pub open spec fn with_short_floats(j: Json) -> bool {
    floats_are(j, |t: Seq<char>| !t.contains('e') && t.len() <= 16)
}

/// Two values are the same but for the numbers with a fraction or an exponent.
pub open spec fn alike(a: Json, b: Json) -> bool
    decreases a,
{
    match (a, b) {
        (Json::Float(_), Json::Float(_)) => true,
        (Json::List(s), Json::List(t)) => s.len() == t.len() && forall|i: int|
            0 <= i < s.len() ==> alike(#[trigger] s[i], t[i]),
        (Json::Object(m), Json::Object(o)) => m.dom() == o.dom() && forall|k: Seq<char>|
            m.contains_key(k) ==> alike(#[trigger] m[k], o[k]),
        _ => a == b,
    }
}

/// What a `serde_json::Value` holds.
pub uninterp spec fn content(v: serde_json::Value) -> Json;

/// What the value holds that `serde_json::from_str` reads from a text; `None` if it
/// refuses the text.
pub uninterp spec fn json_value(text: Seq<char>) -> Option<Json>;

/// The text that `serde_json::to_string_pretty` writes for a value, by what the
/// value holds. The members of an object are written in the order of their keys.
pub uninterp spec fn pretty_text(j: Json) -> Seq<char>;

/// An object without members.
pub open spec fn empty_json() -> Json {
    Json::Object(Map::empty())
}

/// The deepest nesting that `serde_json` reads.
pub const MAX_DEPTH: u64 = 127;

/// `serde_json::from_str`: reads a text as JSON. The result depends on the text
/// alone. More than 127 levels of nesting are refused.
#[verifier::external_body]
fn read_json(text: &str) -> (r: Result<serde_json::Value, serde_json::Error>)
    ensures
        match r {
            Ok(v) => json_value(text@) == Some(content(v)) && nested(
                content(v),
                MAX_DEPTH as nat,
            ),
            Err(_) => json_value(text@) is None,
        },
{
    serde_json::from_str(text)
}

/// `serde_json::Map::new` as a value: an object without members.
#[verifier::external_body]
fn empty_object() -> (r: serde_json::Value)
    ensures
        content(r) == empty_json(),
{
    serde_json::Value::Object(serde_json::Map::new())
}

/// A value is an object with this member.
pub open spec fn has_key(j: Json, key: Seq<char>) -> bool {
    j matches Json::Object(m) && m.contains_key(key)
}

/// A value with a member replaced by a text.
pub open spec fn with_text(j: Json, key: Seq<char>, text: Seq<char>) -> Json {
    match j {
        Json::Object(m) => Json::Object(m.insert(key, Json::Text(text))),
        _ => j,
    }
}

/// `serde_json::Value::get` with a string: an object has the member, or not; a
/// value that is no object has none.
#[verifier::external_body]
fn has_member(v: &serde_json::Value, key: &str) -> (r: bool)
    ensures
        r == has_key(content(*v), key@),
{
    v.get(key).is_some()
}

/// `serde_json::Value::index_mut` with a string: replaces the member of an object
/// by a text. The other members stay.
#[verifier::external_body]
fn put_text(v: &mut serde_json::Value, key: &str, text: String)
    requires
        has_key(content(*old(v)), key@),
    ensures
        content(*final(v)) == with_text(content(*old(v)), key@, text@),
{
    v[key] = serde_json::Value::String(text);
}

/// `serde_json::to_string_pretty` on a JSON value: writes it as text, which depends
/// on what the value holds alone. Writing a value into memory does not fail.
/// Whoever reads the text finds the same value, but for numbers with a fraction or
/// an exponent, which the reader may round. A text without exponents is read
/// again: no number in it is large enough to be refused. A number in at most
/// sixteen characters without an exponent is read as it was: its digits and its
/// power of ten are small enough for the reader to compute with them exactly. Of
/// other numbers nothing more is stated.
#[verifier::external_body]
fn write_pretty(v: &serde_json::Value) -> (r: Result<String, serde_json::Error>)
    requires
        nested(content(*v), MAX_DEPTH as nat),
    ensures
        r is Ok,
        r->Ok_0@ == pretty_text(content(*v)),
        json_value(r->Ok_0@) matches Some(j) ==> alike(j, content(*v)),
        without_exponents(content(*v)) ==> json_value(r->Ok_0@) is Some,
        with_short_floats(content(*v)) ==> json_value(r->Ok_0@) == Some(content(*v)),
{
    serde_json::to_string_pretty(v)
}

/// A secret member is emptied, if it is there.
pub open spec fn emptied(j: Json, key: Seq<char>) -> Json {
    if has_key(j, key) {
        with_text(j, key, Seq::empty())
    } else {
        j
    }
}

/// The value without secrets.
pub open spec fn redacted(j: Json) -> Json {
    emptied(emptied(j, "discord_bot_token"@), "llm_api_key"@)
}

proof fn lemma_emptied_nested(j: Json, key: Seq<char>, n: nat)
    requires
        nested(j, n),
    ensures
        nested(emptied(j, key), n),
{
    if has_key(j, key) {
        let m = j->Object_0;
        let e = m.insert(key, Json::Text(Seq::empty()));
        assert forall|k: Seq<char>| e.contains_key(k) implies nested(
            #[trigger] e[k],
            (n - 1) as nat,
        ) by {
            if k != key {
                assert(m.contains_key(k) && e[k] == m[k]);
            }
        }
    }
}

proof fn lemma_emptied_floats(j: Json, key: Seq<char>, p: spec_fn(Seq<char>) -> bool)
    requires
        floats_are(j, p),
    ensures
        floats_are(emptied(j, key), p),
{
    if has_key(j, key) {
        let m = j->Object_0;
        let e = m.insert(key, Json::Text(Seq::empty()));
        assert forall|k: Seq<char>| e.contains_key(k) implies floats_are(#[trigger] e[k], p) by {
            if k != key {
                assert(m.contains_key(k) && e[k] == m[k]);
            }
        }
        assert(emptied(j, key) == Json::Object(e));
    }
}

fn empty_member(v: &mut serde_json::Value, key: &str)
    ensures
        content(*final(v)) == emptied(content(*old(v)), key@),
{
    if has_member(v, key) {
        let text = String::new();
        assert(text@ =~= Seq::<char>::empty());
        put_text(v, key, text);
    }
}

/// Empties the secrets of the settings.
pub fn redact(v: &mut serde_json::Value)
    ensures
        content(*final(v)) == redacted(content(*old(v))),
{
    empty_member(v, "discord_bot_token");
    empty_member(v, "llm_api_key");
}

/// The settings for a bug report, from their JSON value: the same JSON, with the
/// secrets emptied.
pub fn redacted_value_json(settings: serde_json::Value) -> (r: String)
    requires
        nested(content(settings), MAX_DEPTH as nat),
    ensures
        r@ == pretty_text(redacted(content(settings))),
        json_value(r@) matches Some(j) ==> alike(j, redacted(content(settings))),
        without_exponents(content(settings)) ==> json_value(r@) is Some,
        with_short_floats(content(settings)) ==> json_value(r@) == Some(
            redacted(content(settings)),
        ),
{
    let mut v = settings;
    redact(&mut v);
    proof {
        let j = content(settings);
        let h = emptied(j, "discord_bot_token"@);
        lemma_emptied_nested(j, "discord_bot_token"@, MAX_DEPTH as nat);
        lemma_emptied_nested(h, "llm_api_key"@, MAX_DEPTH as nat);
        let plain = |t: Seq<char>| !t.contains('e');
        let short = |t: Seq<char>| !t.contains('e') && t.len() <= 16;
        if without_exponents(j) {
            lemma_emptied_floats(j, "discord_bot_token"@, plain);
            lemma_emptied_floats(h, "llm_api_key"@, plain);
        }
        if with_short_floats(j) {
            lemma_emptied_floats(j, "discord_bot_token"@, short);
            lemma_emptied_floats(h, "llm_api_key"@, short);
        }
    }
    match write_pretty(&v) {
        Ok(s) => s,
        Err(_) => String::new(),
    }
}

/// What a text of settings holds; an empty object if it is no JSON.
pub open spec fn settings_value(text: Seq<char>) -> Json {
    match json_value(text) {
        Some(j) => j,
        None => empty_json(),
    }
}

/// The settings for a bug report, from their JSON text. What is no JSON becomes an
/// empty object.
pub fn redacted_settings_json(settings: &str) -> (r: String)
    ensures
        r@ == pretty_text(redacted(settings_value(settings@))),
        json_value(r@) matches Some(j) ==> alike(j, redacted(settings_value(settings@))),
        without_exponents(settings_value(settings@)) ==> json_value(r@) is Some,
        with_short_floats(settings_value(settings@)) ==> json_value(r@) == Some(
            redacted(settings_value(settings@)),
        ),
{
    let v = match read_json(settings) {
        Ok(v) => v,
        Err(_) => empty_object(),
    };
    redacted_value_json(v)
}

/// No secret is left.
pub proof fn secrets_are_emptied(m: Map<Seq<char>, Json>, key: Seq<char>)
    requires
        key == "discord_bot_token"@ || key == "llm_api_key"@,
        m.contains_key(key),
    ensures
        redacted(Json::Object(m)) matches Json::Object(r) && r.contains_key(key) && r[key]
            == Json::Text(Seq::empty()),
{
}

/// Everything else is kept whole, and nothing is added.
pub proof fn the_rest_is_kept(j: Json, key: Seq<char>)
    requires
        key != "discord_bot_token"@,
        key != "llm_api_key"@,
    ensures
        match j {
            Json::Object(m) => redacted(j) matches Json::Object(r) && r.dom() == m.dom() && (
            m.contains_key(key) ==> r[key] == m[key]),
            _ => redacted(j) == j,
        },
{
    if let Json::Object(m) = j {
        assert(redacted(j)->Object_0.dom() =~= m.dom());
    }
}

/// Emptying the secrets twice is emptying them once.
pub proof fn redaction_is_idempotent(j: Json)
    ensures
        redacted(redacted(j)) == redacted(j),
{
    if let Json::Object(m) = j {
        assert(redacted(redacted(j))->Object_0 =~= redacted(j)->Object_0);
    }
}

/// Nothing of a secret shows: settings that differ in the secrets alone give the
/// same text.
pub proof fn secrets_do_not_show(a: Map<Seq<char>, Json>, b: Map<Seq<char>, Json>)
    requires
        a.dom() == b.dom(),
        forall|k: Seq<char>|
            a.contains_key(k) && k != "discord_bot_token"@ && k != "llm_api_key"@
                ==> #[trigger] a[k] == b[k],
    ensures
        redacted(Json::Object(a)) == redacted(Json::Object(b)),
        pretty_text(redacted(Json::Object(a))) == pretty_text(redacted(Json::Object(b))),
{
    let x = redacted(Json::Object(a))->Object_0;
    let y = redacted(Json::Object(b))->Object_0;
    assert(x.dom() =~= y.dom());
    assert forall|k: Seq<char>| x.contains_key(k) implies x[k] == y[k] by {
        assert(a.contains_key(k) && b.contains_key(k));
        if k != "discord_bot_token"@ && k != "llm_api_key"@ {
            assert(a[k] == b[k]);
        }
    }
    assert(x =~= y);
}

// ---------------------------------------------------------------------------
// Model files
// ---------------------------------------------------------------------------

/// `a` stands before `b` in the order of their characters, or is the same.
pub open spec fn text_le(a: Seq<char>, b: Seq<char>) -> bool
    decreases a.len(),
{
    if a.len() == 0 {
        true
    } else if b.len() == 0 {
        false
    } else if a[0] == b[0] {
        text_le(a.skip(1), b.skip(1))
    } else {
        a[0] < b[0]
    }
}

proof fn lemma_text_le_total(a: Seq<char>, b: Seq<char>)
    ensures
        text_le(a, b) || text_le(b, a),
    decreases a.len(),
{
    if a.len() > 0 && b.len() > 0 && a[0] == b[0] {
        lemma_text_le_total(a.skip(1), b.skip(1));
    }
}

proof fn lemma_text_le_trans(a: Seq<char>, b: Seq<char>, c: Seq<char>)
    requires
        text_le(a, b),
        text_le(b, c),
    ensures
        text_le(a, c),
    decreases a.len(),
{
    if a.len() > 0 && b.len() > 0 && c.len() > 0 && a[0] == b[0] && b[0] == c[0] {
        lemma_text_le_trans(a.skip(1), b.skip(1), c.skip(1));
    }
}

fn text_before(a: &str, b: &str) -> (r: bool)
    ensures
        r == text_le(a@, b@),
{
    let x = chars_of(a);
    let y = chars_of(b);
    let mut i: usize = 0;
    assert(a@.skip(0) =~= a@ && b@.skip(0) =~= b@);
    while i < x.len()
        invariant
            i <= x@.len(),
            i <= y@.len(),
            x@ == a@,
            y@ == b@,
            text_le(a@, b@) == text_le(a@.skip(i as int), b@.skip(i as int)),
        decreases x@.len() - i,
    {
        if i >= y.len() {
            return false;
        }
        if x[i] != y[i] {
            return x[i] < y[i];
        }
        assert(a@.skip(i as int).skip(1) =~= a@.skip(i + 1));
        assert(b@.skip(i as int).skip(1) =~= b@.skip(i + 1));
        i += 1;
    }
    true
}

/// In the order of their characters.
pub open spec fn sorted_names(v: Seq<String>) -> bool {
    forall|i: int, j: int|
        #![trigger v[i], v[j]]
        0 <= i <= j < v.len() ==> text_le(v[i]@, v[j]@)
}

fn insert_name(v: &mut Vec<String>, x: String)
    requires
        sorted_names(old(v)@),
    ensures
        sorted_names(final(v)@),
        final(v)@.to_multiset() == old(v)@.to_multiset().insert(x),
{
    let mut at: usize = 0;
    let ghost was = v@;
    while at < v.len() && !text_before(&x, &v[at])
        invariant
            at <= v@.len(),
            v@ == was,
            sorted_names(was),
            forall|k: int| 0 <= k < at ==> !text_le(x@, (#[trigger] was[k])@),
        decreases v@.len() - at,
    {
        at += 1;
    }
    let ghost text = x@;
    v.insert(at, x);
    proof {
        broadcast use vstd::seq_lib::group_to_multiset_ensures;

        let s = v@;
        assert forall|i: int, j: int|
            #![trigger s[i], s[j]]
            0 <= i <= j < s.len() implies text_le(s[i]@, s[j]@) by {
            lemma_text_le_total(s[i]@, s[j]@);
            if i < at && j == at {
                lemma_text_le_total(text, was[i]@);
            } else if i == at && j > at {
                assert(text_le(was[at as int]@, was[j - 1]@));
                lemma_text_le_trans(text, was[at as int]@, was[j - 1]@);
            }
        }
        assert(s.remove(at as int) =~= was);
        assert(s[at as int] == x);
        assert(s.contains(x));
        assert(s.to_multiset() =~= was.to_multiset().insert(x));
    }
}

/// The names of the model files: directories and hidden files are left out.
pub open spec fn model_files(entries: Seq<(String, bool)>) -> Seq<String>
    decreases entries.len(),
{
    if entries.len() == 0 {
        Seq::empty()
    } else {
        let p = model_files(entries.drop_last());
        let (name, directory) = entries.last();
        if directory || begins(name@, "."@) {
            p
        } else {
            p.push(name)
        }
    }
}

/// The names of the model files in order. An entry is the name of a file and
/// whether it is a directory.
pub fn model_names(entries: &Vec<(String, bool)>) -> (r: Vec<String>)
    ensures
        sorted_names(r@),
        r@.to_multiset() == model_files(entries@).to_multiset(),
{
    let mut r: Vec<String> = Vec::new();
    let mut i: usize = 0;
    while i < entries.len()
        invariant
            i <= entries@.len(),
            sorted_names(r@),
            r@.to_multiset() == model_files(entries@.take(i as int)).to_multiset(),
        decreases entries@.len() - i,
    {
        proof {
            broadcast use vstd::seq_lib::group_to_multiset_ensures;

            assert(entries@.take(i + 1).drop_last() =~= entries@.take(i as int));
        }
        if !entries[i].1 && !starts_with(&entries[i].0, ".") {
            insert_name(&mut r, entries[i].0.clone());
        }
        i += 1;
    }
    assert(entries@.take(i as int) =~= entries@);
    r
}

// ---------------------------------------------------------------------------
// System description
// ---------------------------------------------------------------------------

/// The names of the optional parts of a build.
pub open spec fn feature_names(f: Features) -> Seq<Seq<char>> {
    let none = Seq::<Seq<char>>::empty();
    (if f.parakeet {
        none.push("parakeet"@)
    } else {
        none
    }) + (if f.llm_local {
        none.push("llm-local"@)
    } else {
        none
    }) + (if f.llm_remote {
        none.push("llm-remote"@)
    } else {
        none
    }) + (if f.diarization {
        none.push("diarization"@)
    } else {
        none
    }) + (if f.voiceprints {
        none.push("voiceprints"@)
    } else {
        none
    }) + (if f.encryption {
        none.push("encryption"@)
    } else {
        none
    }) + (if f.discord {
        none.push("discord"@)
    } else {
        none
    }) + (if f.self_update {
        none.push("self-update"@)
    } else {
        none
    })
}

fn put_name(v: &mut Vec<String>, c: bool, name: &str)
    ensures
        views(final(v)@) == views(old(v)@) + (if c {
            Seq::<Seq<char>>::empty().push(name@)
        } else {
            Seq::<Seq<char>>::empty()
        }),
{
    let ghost was = v@;
    if c {
        v.push(name.to_string());
        assert(views(v@) =~= views(was) + Seq::<Seq<char>>::empty().push(name@));
    } else {
        assert(views(v@) =~= views(was) + Seq::<Seq<char>>::empty());
    }
}

/// The optional parts of a build as text.
pub fn features_text(f: Features) -> (r: String)
    ensures
        r@ == (if feature_names(f).len() == 0 {
            "none"@
        } else {
            joined(feature_names(f), ", "@)
        }),
{
    let mut v: Vec<String> = Vec::new();
    assert(views(v@) =~= Seq::<Seq<char>>::empty());
    put_name(&mut v, f.parakeet, "parakeet");
    put_name(&mut v, f.llm_local, "llm-local");
    put_name(&mut v, f.llm_remote, "llm-remote");
    put_name(&mut v, f.diarization, "diarization");
    put_name(&mut v, f.voiceprints, "voiceprints");
    put_name(&mut v, f.encryption, "encryption");
    put_name(&mut v, f.discord, "discord");
    put_name(&mut v, f.self_update, "self-update");
    assert(views(v@) =~= feature_names(f));
    if v.len() == 0 {
        "none".to_string()
    } else {
        join(&v, ", ")
    }
}

/// What the description of the system is made of.
#[derive(Debug, Clone)]
pub struct SystemFacts {
    pub version: String,
    pub channel: String,
    pub os: String,
    pub arch: String,
    pub features: Features,
    pub encrypted: bool,
    pub sessions: u64,
    pub segments: u64,
    /// The names of the model files.
    pub models: Vec<String>,
}

/// The list of the model files.
pub open spec fn model_lines(names: Seq<String>) -> Seq<char>
    decreases names.len(),
{
    if names.len() == 0 {
        Seq::empty()
    } else {
        model_lines(names.drop_last()) + "  - "@ + names.last()@ + "\n"@
    }
}

/// The description of the system.
pub open spec fn system_lines(s: SystemFacts) -> Seq<char> {
    "version: "@ + s.version@ + "\n"@ + "channel: "@ + s.channel@ + "\n"@ + "os: "@ + s.os@
        + "\n"@ + "arch: "@ + s.arch@ + "\n"@ + "features: "@ + (if feature_names(
        s.features,
    ).len() == 0 {
        "none"@
    } else {
        joined(feature_names(s.features), ", "@)
    }) + "\n"@ + "db_encrypted: "@ + (if s.encrypted {
        "true"@
    } else {
        "false"@
    }) + "\n"@ + "sessions: "@ + decimal(s.sessions as nat) + "\n"@ + "segments: "@ + decimal(
        s.segments as nat,
    ) + "\n"@ + "models:\n"@ + model_lines(s.models@)
}

fn model_list(names: &Vec<String>) -> (r: String)
    ensures
        r@ == model_lines(names@),
{
    let mut r = String::new();
    assert(r@ =~= Seq::<char>::empty());
    let mut i: usize = 0;
    while i < names.len()
        invariant
            i <= names@.len(),
            r@ == model_lines(names@.take(i as int)),
        decreases names@.len() - i,
    {
        assert(names@.take(i + 1).drop_last() =~= names@.take(i as int));
        r.push_str("  - ");
        r.push_str(&names[i]);
        r.push_str("\n");
        i += 1;
    }
    assert(names@.take(i as int) =~= names@);
    r
}

/// The description of the system. It holds counts and names, and nothing that
/// was said.
pub fn system_text(s: &SystemFacts) -> (r: String)
    ensures
        r@ == system_lines(*s),
{
    let mut r = "version: ".to_string();
    r.push_str(&s.version);
    r.push_str("\n");
    r.push_str("channel: ");
    r.push_str(&s.channel);
    r.push_str("\n");
    r.push_str("os: ");
    r.push_str(&s.os);
    r.push_str("\n");
    r.push_str("arch: ");
    r.push_str(&s.arch);
    r.push_str("\n");
    r.push_str("features: ");
    r.push_str(&features_text(s.features));
    r.push_str("\n");
    r.push_str("db_encrypted: ");
    if s.encrypted {
        r.push_str("true");
    } else {
        r.push_str("false");
    }
    r.push_str("\n");
    r.push_str("sessions: ");
    r.push_str(&write_u64(s.sessions));
    r.push_str("\n");
    r.push_str("segments: ");
    r.push_str(&write_u64(s.segments));
    r.push_str("\n");
    r.push_str("models:\n");
    r.push_str(&model_list(&s.models));
    r
}

/// The name of a bundle that is made at this second.
pub fn bundle_name(unix: u64) -> (r: String)
    ensures
        r@ == "zord-diagnostics-"@ + decimal(unix as nat) + ".zip"@,
{
    let mut r = "zord-diagnostics-".to_string();
    r.push_str(&write_u64(unix));
    r.push_str(".zip");
    r
}

// ---------------------------------------------------------------------------
// Logs
// ---------------------------------------------------------------------------

/// The first end of a line, from this place on.
pub open spec fn line_end(s: Seq<char>, from: int) -> int
    decreases s.len() - from,
{
    if from >= s.len() || s[from] == '\n' {
        from
    } else {
        line_end(s, from + 1)
    }
}

/// A line without the carriage return before its end.
pub open spec fn without_return(s: Seq<char>) -> Seq<char> {
    if s.len() > 0 && s.last() == '\r' {
        s.drop_last()
    } else {
        s
    }
}

proof fn lemma_line_end(s: Seq<char>, from: int)
    requires
        0 <= from <= s.len(),
    ensures
        from <= line_end(s, from) <= s.len(),
        line_end(s, from) < s.len() ==> s[line_end(s, from)] == '\n',
    decreases s.len() - from,
{
    if from < s.len() && s[from] != '\n' {
        lemma_line_end(s, from + 1);
    }
}

/// The lines of a text from this place on. A line ends at a newline, or at a
/// carriage return and a newline; the end of the last line may be missing.
pub open spec fn lines_from(s: Seq<char>, from: int) -> Seq<Seq<char>>
    decreases s.len() - from,
{
    if from < 0 || from >= s.len() {
        Seq::empty()
    } else {
        let e = line_end(s, from);
        if e >= s.len() {
            seq![s.subrange(from, s.len() as int)]
        } else if e < from {
            Seq::empty()
        } else {
            seq![without_return(s.subrange(from, e))] + lines_from(s, e + 1)
        }
    }
}

/// The lines of a text.
pub fn split_lines(text: &str) -> (r: Vec<String>)
    ensures
        views(r@) == lines_from(text@, 0),
{
    let v = chars_of(text);
    let mut r: Vec<String> = Vec::new();
    assert(views(r@) =~= Seq::<Seq<char>>::empty());
    let mut from: usize = 0;
    while from < v.len()
        invariant
            from <= v@.len(),
            v@ == text@,
            views(r@) + lines_from(text@, from as int) == lines_from(text@, 0),
        decreases v@.len() - from,
    {
        let mut e: usize = from;
        while e < v.len() && v[e] != '\n'
            invariant
                from <= e <= v@.len(),
                v@ == text@,
                line_end(text@, e as int) == line_end(text@, from as int),
            decreases v@.len() - e,
        {
            e += 1;
        }
        let ghost was = r@;
        if e >= v.len() {
            let line = text_of(&v, from, e);
            r.push(line);
            assert(views(r@) =~= views(was) + seq![
                text@.subrange(from as int, text@.len() as int),
            ]);
            return r;
        }
        let to: usize = if e > from && v[e - 1] == '\r' {
            e - 1
        } else {
            e
        };
        let line = text_of(&v, from, to);
        proof {
            let whole = text@.subrange(from as int, e as int);
            if e > from {
                assert(whole.last() == text@[e - 1]);
            }
            assert(line@ =~= without_return(whole));
        }
        r.push(line);
        proof {
            let first = seq![without_return(text@.subrange(from as int, e as int))];
            assert(views(r@) =~= views(was) + first);
            assert(lines_from(text@, from as int) == first + lines_from(text@, e + 1));
            assert(views(r@) + lines_from(text@, e + 1) =~= views(was) + (first + lines_from(
                text@,
                e + 1,
            )));
        }
        from = e + 1;
    }
    assert(views(r@) + Seq::<Seq<char>>::empty() =~= views(r@));
    r
}

/// The lines of a log that are shared, at most.
pub const RECENT_LINES: usize = 200;

/// The last lines of a log.
pub open spec fn last_lines(lines: Seq<Seq<char>>) -> Seq<Seq<char>> {
    if lines.len() <= RECENT_LINES {
        lines
    } else {
        lines.skip(lines.len() - RECENT_LINES)
    }
}

/// The last lines of a log, and how many they are.
pub fn recent_log(text: &str) -> (r: (String, usize))
    ensures
        r.0@ == joined(last_lines(lines_from(text@, 0)), "\n"@),
        r.1 == last_lines(lines_from(text@, 0)).len(),
{
    let lines = split_lines(text);
    let start: usize = lines.len().saturating_sub(RECENT_LINES);
    let mut tail: Vec<String> = Vec::new();
    let mut i: usize = start;
    while i < lines.len()
        invariant
            start <= i <= lines@.len(),
            tail@.len() == i - start,
            forall|k: int| 0 <= k < tail@.len() ==> #[trigger] tail@[k] == lines@[start + k],
        decreases lines@.len() - i,
    {
        tail.push(lines[i].clone());
        i += 1;
    }
    assert(views(lines@).len() == lines@.len());
    assert(views(tail@) =~= last_lines(views(lines@)));
    let n: usize = tail.len();
    (join(&tail, "\n"), n)
}

/// The notice after the log was copied.
pub fn copied_text(lines: usize) -> (r: String)
    ensures
        r@ == "Copied last "@ + decimal(lines as nat) + " log lines to clipboard"@,
{
    let mut r = "Copied last ".to_string();
    r.push_str(&write_u64(lines as u64));
    r.push_str(" log lines to clipboard");
    r
}

/// Names are ordered as in a dictionary: by the first character in which they differ,
/// and a name before those that it begins.
pub proof fn names_are_in_dictionary_order(p: Seq<char>, c: char, d: char, a: Seq<char>, b: Seq<char>)
    ensures
        text_le(p, p + a),
        c < d ==> text_le(p + seq![c] + a, p + seq![d] + b) && !text_le(
            p + seq![d] + b,
            p + seq![c] + a,
        ),
        a.len() > 0 ==> !text_le(p + a, p),
    decreases p.len(),
{
    if p.len() > 0 {
        let q = p.skip(1);
        names_are_in_dictionary_order(q, c, d, a, b);
        assert((p + a).skip(1) =~= q + a);
        assert((p + seq![c] + a).skip(1) =~= q + seq![c] + a);
        assert((p + seq![d] + b).skip(1) =~= q + seq![d] + b);
        assert((p + a)[0] == p[0]);
        assert((p + seq![c] + a)[0] == p[0]);
        assert((p + seq![d] + b)[0] == p[0]);
    } else {
        assert((p + seq![c] + a)[0] == c);
        assert((p + seq![d] + b)[0] == d);
    }
}

/// The model files are all files that are not hidden, in the order of the folder.
pub proof fn visible_files_are_listed(
    a: Seq<(String, bool)>,
    b: Seq<(String, bool)>,
    name: String,
)
    ensures
        model_files(a + b) == model_files(a) + model_files(b),
        !begins(name@, "."@) ==> model_files(seq![(name, false)]) == seq![name],
        begins(name@, "."@) ==> model_files(seq![(name, false)]).len() == 0,
        model_files(seq![(name, true)]).len() == 0,
    decreases b.len(),
{
    let f = seq![(name, false)];
    let g = seq![(name, true)];
    assert(f.drop_last() =~= Seq::empty());
    assert(g.drop_last() =~= Seq::empty());
    assert(model_files(f.drop_last()) =~= Seq::<String>::empty());
    assert(model_files(g.drop_last()) =~= Seq::<String>::empty());
    if !begins(name@, "."@) {
        assert(model_files(f) =~= seq![name]);
    }
    if b.len() == 0 {
        assert(a + b =~= a);
        assert(model_files(a) + model_files(b) =~= model_files(a));
    } else {
        assert((a + b).drop_last() =~= a + b.drop_last());
        visible_files_are_listed(a, b.drop_last(), name);
        assert(model_files(a + b) =~= model_files(a) + model_files(b));
    }
}

/// Every feature that is built in is named, and no other.
pub proof fn built_in_features_are_named(f: Features)
    ensures
        ({
            let r = feature_names(f);
            let one = |c: bool|
                if c {
                    1int
                } else {
                    0int
                };
            &&& f.parakeet ==> r.contains("parakeet"@)
            &&& f.llm_local ==> r.contains("llm-local"@)
            &&& f.llm_remote ==> r.contains("llm-remote"@)
            &&& f.diarization ==> r.contains("diarization"@)
            &&& f.voiceprints ==> r.contains("voiceprints"@)
            &&& f.encryption ==> r.contains("encryption"@)
            &&& f.discord ==> r.contains("discord"@)
            &&& f.self_update ==> r.contains("self-update"@)
            &&& r.len() == one(f.parakeet) + one(f.llm_local) + one(f.llm_remote) + one(
                f.diarization,
            ) + one(f.voiceprints) + one(f.encryption) + one(f.discord) + one(f.self_update)
        }),
{
    broadcast use vstd::seq_lib::lemma_seq_concat_contains_all_elements;

    let none = Seq::<Seq<char>>::empty();
    assert forall|x: Seq<char>| #[trigger] none.push(x).contains(x) by {
        assert(none.push(x)[0] == x);
    }
}

/// Every model has its own line.
pub proof fn models_have_a_line_each(a: Seq<String>, b: Seq<String>, name: String)
    ensures
        model_lines(a + b) == model_lines(a) + model_lines(b),
        model_lines(seq![name]) == "  - "@ + name@ + "\n"@,
        model_lines(Seq::empty()).len() == 0,
    decreases b.len(),
{
    let one = seq![name];
    assert(one.drop_last() =~= Seq::empty());
    assert(model_lines(one.drop_last()) =~= Seq::<char>::empty());
    assert(model_lines(one) =~= "  - "@ + name@ + "\n"@);
    if b.len() == 0 {
        assert(a + b =~= a);
        assert(model_lines(a) + model_lines(b) =~= model_lines(a));
    } else {
        assert((a + b).drop_last() =~= a + b.drop_last());
        models_have_a_line_each(a, b.drop_last(), name);
        assert(model_lines(a + b) =~= model_lines(a) + model_lines(b));
    }
}

/// The description says every fact on a line of its own.
pub proof fn every_fact_is_described(s: SystemFacts)
    ensures
        ({
            let t = system_lines(s);
            &&& begins(t, "version: "@ + s.version@ + "\n"@)
            &&& crate::pattern::occurs(t, "\n"@ + ("channel: "@ + s.channel@ + "\n"@))
            &&& crate::pattern::occurs(t, "\n"@ + ("os: "@ + s.os@ + "\n"@))
            &&& crate::pattern::occurs(t, "\n"@ + ("arch: "@ + s.arch@ + "\n"@))
            &&& feature_names(s.features).len() > 0 ==> crate::pattern::occurs(
                t,
                "\n"@ + ("features: "@ + joined(feature_names(s.features), ", "@) + "\n"@),
            )
            &&& feature_names(s.features).len() == 0 ==> crate::pattern::occurs(
                t,
                "\n"@ + ("features: "@ + "none"@ + "\n"@),
            )
            &&& s.encrypted ==> crate::pattern::occurs(
                t,
                "\n"@ + ("db_encrypted: "@ + "true"@ + "\n"@),
            )
            &&& !s.encrypted ==> crate::pattern::occurs(
                t,
                "\n"@ + ("db_encrypted: "@ + "false"@ + "\n"@),
            )
            &&& crate::pattern::occurs(
                t,
                "\n"@ + ("sessions: "@ + decimal(s.sessions as nat) + "\n"@),
            )
            &&& crate::pattern::occurs(
                t,
                "\n"@ + ("segments: "@ + decimal(s.segments as nat) + "\n"@),
            )
            &&& crate::pattern::finishes(t, "models:\n"@ + model_lines(s.models@))
        }),
{
    let n = "\n"@;
    let fe = if feature_names(s.features).len() == 0 {
        "none"@
    } else {
        joined(feature_names(s.features), ", "@)
    };
    let en = if s.encrypted {
        "true"@
    } else {
        "false"@
    };
    let se = decimal(s.sessions as nat);
    let sg = decimal(s.segments as nat);
    let p0 = "version: "@ + s.version@;
    let p1 = p0 + n + "channel: "@ + s.channel@;
    let p2 = p1 + n + "os: "@ + s.os@;
    let p3 = p2 + n + "arch: "@ + s.arch@;
    let p4 = p3 + n + "features: "@ + fe;
    let p5 = p4 + n + "db_encrypted: "@ + en;
    let p6 = p5 + n + "sessions: "@ + se;
    let p7 = p6 + n + "segments: "@ + sg;
    let t = p7 + n + "models:\n"@ + model_lines(s.models@);
    assert(system_lines(s) == t);
    lemma_line(p0, "channel: "@, s.channel@);
    lemma_line(p1, "os: "@, s.os@);
    lemma_line(p2, "arch: "@, s.arch@);
    lemma_line(p3, "features: "@, fe);
    lemma_line(p4, "db_encrypted: "@, en);
    lemma_line(p5, "sessions: "@, se);
    lemma_line(p6, "segments: "@, sg);
    lemma_longer(p1 + n, "os: "@, s.os@, n);
    lemma_longer(p2 + n, "arch: "@, s.arch@, n);
    lemma_longer(p3 + n, "features: "@, fe, n);
    lemma_longer(p4 + n, "db_encrypted: "@, en, n);
    lemma_longer(p5 + n, "sessions: "@, se, n);
    lemma_longer(p6 + n, "segments: "@, sg, n);
    lemma_longer(p7 + n, "models:\n"@, model_lines(s.models@), Seq::empty());
    assert(t + Seq::<char>::empty() =~= t);
    let v = p0 + n;
    lemma_begins_longer(v, v, "channel: "@, s.channel@, n);
    lemma_begins_longer(v, p1 + n, "os: "@, s.os@, n);
    lemma_begins_longer(v, p2 + n, "arch: "@, s.arch@, n);
    lemma_begins_longer(v, p3 + n, "features: "@, fe, n);
    lemma_begins_longer(v, p4 + n, "db_encrypted: "@, en, n);
    lemma_begins_longer(v, p5 + n, "sessions: "@, se, n);
    lemma_begins_longer(v, p6 + n, "segments: "@, sg, n);
    lemma_begins_longer(v, p7 + n, "models:\n"@, model_lines(s.models@), Seq::empty());
    let m = "models:\n"@ + model_lines(s.models@);
    assert(t =~= p7 + n + m);
    crate::pattern::texts_stand_where_their_characters_do(p7 + n, m, 0);
}

proof fn lemma_line(p: Seq<char>, head: Seq<char>, v: Seq<char>)
    ensures
        crate::pattern::occurs(p + "\n"@ + head + v + "\n"@, "\n"@ + (head + v + "\n"@)),
{
    let b = "\n"@ + (head + v + "\n"@);
    let t = p + "\n"@ + head + v + "\n"@;
    assert(t.subrange(p.len() as int, (p.len() + b.len()) as int) =~= b);
    assert(crate::pattern::stands_at(t, b, p.len() as int));
}

proof fn lemma_longer(p: Seq<char>, x: Seq<char>, y: Seq<char>, z: Seq<char>)
    ensures
        forall|b: Seq<char>| #[trigger]
            crate::pattern::occurs(p, b) ==> crate::pattern::occurs(p + x + y + z, b),
{
    let t = p + x + y + z;
    assert forall|b: Seq<char>| #[trigger] crate::pattern::occurs(
        p,
        b,
    ) implies crate::pattern::occurs(t, b) by {
        let i = choose|i: int| #[trigger] crate::pattern::stands_at(p, b, i);
        assert(t.subrange(i, i + b.len()) =~= p.subrange(i, i + b.len()));
        assert(crate::pattern::stands_at(t, b, i));
    }
}

proof fn lemma_begins_longer(v: Seq<char>, p: Seq<char>, x: Seq<char>, y: Seq<char>, z: Seq<char>)
    requires
        v == p || begins(p, v),
    ensures
        begins(p + x + y + z, v),
{
    let t = p + x + y + z;
    assert(p.subrange(0, v.len() as int) =~= v);
    assert(t.subrange(0, v.len() as int) =~= p.subrange(0, v.len() as int));
}

/// A log is read line by line: every line feed ends a line, with the carriage return
/// before it, and what follows the last one is a line as well.
pub proof fn line_feeds_end_lines(a: Seq<char>, b: Seq<char>)
    requires
        forall|i: int| 0 <= i < a.len() ==> #[trigger] a[i] != '\n',
    ensures
        lines_from(a + seq!['\n'] + b, 0) == seq![without_return(a)] + lines_from(b, 0),
        a.len() > 0 ==> lines_from(a, 0) == seq![a],
        lines_from(Seq::empty(), 0).len() == 0,
        without_return(a + seq!['\r']) == a,
        a.len() == 0 || a.last() != '\r' ==> without_return(a) == a,
{
    let x = a + seq!['\n'];
    let t = x + b;
    lemma_end_at(t, 0, a.len() as int);
    assert(t.subrange(0, a.len() as int) =~= a);
    assert(lines_from(t, 0) == seq![without_return(a)] + lines_from(t, a.len() as int + 1));
    lemma_lines_shift(x, b, 0);
    if a.len() > 0 {
        lemma_end_at(a, 0, a.len() as int);
        assert(a.subrange(0, a.len() as int) =~= a);
    }
    assert((a + seq!['\r']).drop_last() =~= a);
}

proof fn lemma_end_at(s: Seq<char>, from: int, e: int)
    requires
        0 <= from <= e <= s.len(),
        e == s.len() || s[e] == '\n',
        forall|i: int| from <= i < e ==> #[trigger] s[i] != '\n',
    ensures
        line_end(s, from) == e,
    decreases e - from,
{
    if from < e {
        assert(s[from] != '\n');
        lemma_end_at(s, from + 1, e);
    }
}

proof fn lemma_end_shift(x: Seq<char>, s: Seq<char>, from: int)
    requires
        0 <= from <= s.len(),
    ensures
        line_end(x + s, x.len() + from) == x.len() + line_end(s, from),
    decreases s.len() - from,
{
    if from < s.len() {
        assert((x + s)[x.len() + from] == s[from]);
        if s[from] != '\n' {
            lemma_end_shift(x, s, from + 1);
        }
    }
}

proof fn lemma_lines_shift(x: Seq<char>, s: Seq<char>, from: int)
    requires
        0 <= from <= s.len(),
    ensures
        lines_from(x + s, x.len() + from) == lines_from(s, from),
    decreases s.len() - from,
{
    if from < s.len() {
        lemma_line_end(s, from);
        lemma_end_shift(x, s, from);
        let e = line_end(s, from);
        let t = x + s;
        if e >= s.len() {
            assert(t.subrange(x.len() + from, t.len() as int) =~= s.subrange(from, s.len() as int));
        } else {
            assert(t.subrange(x.len() + from, x.len() + e) =~= s.subrange(from, e));
            lemma_lines_shift(x, s, e + 1);
        }
    }
}

/// Of a long log the last two hundred lines are kept, of a short one all.
pub proof fn the_end_of_the_log_is_kept(a: Seq<Seq<char>>, b: Seq<Seq<char>>)
    ensures
        b.len() == 200 ==> last_lines(a + b) == b,
        b.len() <= 200 ==> last_lines(b) == b,
{
    assert((a + b).skip(a.len() as int) =~= b);
}

} // verus!
