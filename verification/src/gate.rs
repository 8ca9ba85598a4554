//! The lock before the main window: pending changes of the encryption are
//! applied, and a locked database asks for its passphrase.

use vstd::prelude::*;

verus! {

/// The settings that the lock reads and writes.
#[derive(Debug, Clone, Copy, PartialEq, Eq, Structural)]
pub struct GateFlags {
    pub encrypted: bool,
    pub encrypt_pending: bool,
    pub decrypt_pending: bool,
}

/// What the lock finds outside.
#[derive(Debug, Clone, Copy, PartialEq, Eq, Structural)]
pub struct GateFacts {
    /// The keychain holds a passphrase.
    pub has_pass: bool,
    /// The database file is there.
    pub db_exists: bool,
    /// The database file is encrypted.
    pub db_encrypted: bool,
    /// The database opens with the passphrase of the keychain.
    pub opens: bool,
}

/// Whether the application may start.
#[derive(Debug, Clone, Copy, PartialEq, Eq, Structural)]
pub enum Gate {
    Unlocked,
    NeedsPassphrase,
}

/// What the lock does, in order.
#[derive(Debug, Clone, Copy, PartialEq, Eq, Structural)]
pub enum GateStep {
    /// Encrypt the database with the passphrase of the keychain.
    Encrypt,
    /// Decrypt the database with it.
    Decrypt,
    /// Use the passphrase of the keychain for the database.
    UsePass,
    /// Use no passphrase.
    UseNone,
    /// Forget the passphrase of the keychain.
    Forget,
    /// Store the passphrase in the keychain.
    Remember,
    /// Save the settings.
    Save,
}

/// One step if a condition holds.
pub open spec fn gate_if(c: bool, s: GateStep) -> Seq<GateStep> {
    if c {
        seq![s]
    } else {
        Seq::empty()
    }
}

/// The encryption that waits is applied now.
pub open spec fn encrypts(s: GateFlags, f: GateFacts) -> bool {
    s.encrypt_pending && f.has_pass
}

/// The encryption that waits is given up: there is no passphrase for it.
pub open spec fn gives_up(s: GateFlags, f: GateFacts) -> bool {
    s.encrypt_pending && !f.has_pass
}

/// What the lock does.
pub open spec fn gate_steps(s: GateFlags, f: GateFacts) -> Seq<GateStep> {
    if encrypts(s, f) {
        gate_if(f.db_exists, GateStep::Encrypt) + seq![GateStep::UsePass, GateStep::Save]
    } else if s.decrypt_pending {
        gate_if(gives_up(s, f), GateStep::Save) + gate_if(f.has_pass, GateStep::Decrypt) + seq![
            GateStep::UseNone,
            GateStep::Forget,
            GateStep::Save,
        ]
    } else {
        gate_if(gives_up(s, f), GateStep::Save) + gate_if(
            (s.encrypted || f.db_encrypted) && f.has_pass,
            GateStep::UsePass,
        )
    }
}

/// The settings after the lock.
pub open spec fn gate_flags(s: GateFlags, f: GateFacts) -> GateFlags {
    if encrypts(s, f) {
        GateFlags { encrypted: true, encrypt_pending: false, ..s }
    } else if s.decrypt_pending {
        GateFlags { encrypted: false, encrypt_pending: false, decrypt_pending: false }
    } else {
        GateFlags { encrypt_pending: false, ..s }
    }
}

/// Whether the application may start.
pub open spec fn gate_state(s: GateFlags, f: GateFacts) -> Gate {
    if encrypts(s, f) || s.decrypt_pending || !(s.encrypted || f.db_encrypted) || (f.has_pass
        && f.opens) {
        Gate::Unlocked
    } else {
        Gate::NeedsPassphrase
    }
}

fn put(v: &mut Vec<GateStep>, c: bool, s: GateStep)
    ensures
        final(v)@ == old(v)@ + gate_if(c, s),
{
    if c {
        v.push(s);
    }
}

impl GateFlags {
    /// Applies what waits, unlocks if possible, and says whether the application
    /// may start. `opens` is asked for only after the passphrase is in use.
    pub fn run(&mut self, f: GateFacts) -> (r: (Vec<GateStep>, Gate))
        ensures
            r.0@ == gate_steps(*old(self), f),
            r.1 == gate_state(*old(self), f),
            *final(self) == gate_flags(*old(self), f),
    {
        let mut v: Vec<GateStep> = Vec::new();
        if self.encrypt_pending {
            if f.has_pass {
                put(&mut v, f.db_exists, GateStep::Encrypt);
                v.push(GateStep::UsePass);
                v.push(GateStep::Save);
                self.encrypted = true;
                self.encrypt_pending = false;
                return (v, Gate::Unlocked);
            }
            self.encrypt_pending = false;
            v.push(GateStep::Save);
        }
        if self.decrypt_pending {
            put(&mut v, f.has_pass, GateStep::Decrypt);
            v.push(GateStep::UseNone);
            v.push(GateStep::Forget);
            v.push(GateStep::Save);
            self.encrypted = false;
            self.decrypt_pending = false;
            return (v, Gate::Unlocked);
        }
        if self.encrypted || f.db_encrypted {
            put(&mut v, f.has_pass, GateStep::UsePass);
            if f.has_pass && f.opens {
                return (v, Gate::Unlocked);
            }
            return (v, Gate::NeedsPassphrase);
        }
        (v, Gate::Unlocked)
    }
}

/// What is done with a passphrase that the user entered, after the database was
/// opened with it, or not. Returns whether it fits.
pub fn try_unlock(opens: bool, remember: bool) -> (r: (Vec<GateStep>, bool))
    ensures
        r.1 == opens,
        r.0@ == (if opens {
            gate_if(remember, GateStep::Remember)
        } else {
            seq![GateStep::UseNone]
        }),
{
    let mut v: Vec<GateStep> = Vec::new();
    if opens {
        put(&mut v, remember, GateStep::Remember);
        (v, true)
    } else {
        v.push(GateStep::UseNone);
        (v, false)
    }
}

/// A locked database lets nobody in without a passphrase that opens it.
pub proof fn locked_databases_stay_locked(s: GateFlags, f: GateFacts)
    requires
        s.encrypted || f.db_encrypted,
        !s.encrypt_pending,
        !s.decrypt_pending,
    ensures
        gate_state(s, f) == Gate::Unlocked <==> f.has_pass && f.opens,
{
}

/// The lock settles what waits: an encryption never waits after it, and a
/// decryption only behind an encryption.
pub proof fn nothing_waits_twice(s: GateFlags, f: GateFacts)
    ensures
        !gate_flags(s, f).encrypt_pending,
        gate_flags(s, f).decrypt_pending ==> encrypts(s, f) && s.decrypt_pending,
{
}

/// A change that the lock makes to the settings is saved.
pub proof fn gate_changes_are_saved(s: GateFlags, f: GateFacts)
    requires
        gate_flags(s, f) != s,
    ensures
        gate_steps(s, f).contains(GateStep::Save),
{
    let t = gate_steps(s, f);
    if encrypts(s, f) {
        assert(t[t.len() - 1] == GateStep::Save);
    } else if s.decrypt_pending {
        assert(t[t.len() - 1] == GateStep::Save);
    } else {
        assert(t[0] == GateStep::Save);
    }
}

/// Once nothing waits, the lock changes nothing more.
pub proof fn a_settled_gate_stays(s: GateFlags, f: GateFacts)
    requires
        !s.encrypt_pending,
        !s.decrypt_pending,
    ensures
        gate_flags(s, f) == s,
        !gate_steps(s, f).contains(GateStep::Save),
{
}

/// The database is encrypted exactly if that waits, there is a passphrase and there is a
/// database; it is decrypted exactly if that waits, no encryption comes first and there is
/// a passphrase. The passphrase is forgotten after a decryption only.
pub proof fn the_gate_does_what_waits(s: GateFlags, f: GateFacts)
    ensures
        ({
            let r = gate_steps(s, f);
            let enc = s.encrypt_pending && f.has_pass;
            let dec = s.decrypt_pending && !enc;
            &&& r.contains(GateStep::Encrypt) <==> enc && f.db_exists
            &&& r.contains(GateStep::Decrypt) <==> dec && f.has_pass
            &&& r.contains(GateStep::UseNone) <==> dec
            &&& r.contains(GateStep::Forget) <==> dec
            &&& r.contains(GateStep::UsePass) <==> enc || (!dec && f.has_pass && (s.encrypted
                || f.db_encrypted))
            &&& !r.contains(GateStep::Remember)
            &&& enc && f.db_exists ==> r[0] == GateStep::Encrypt
            &&& enc || dec ==> r.last() == GateStep::Save
        }),
{
    broadcast use vstd::seq_lib::lemma_seq_concat_contains_all_elements;

    assert forall|c: bool, x: GateStep, y: GateStep| #[trigger] gate_if(c, x).contains(y) <==> c && x
        == y by {
        if c {
            assert(seq![x][0] == x);
        }
    }
    let a = seq![GateStep::UsePass, GateStep::Save];
    assert(a[0] == GateStep::UsePass && a[1] == GateStep::Save);
    let b = seq![GateStep::UseNone, GateStep::Forget, GateStep::Save];
    assert(b[0] == GateStep::UseNone && b[1] == GateStep::Forget && b[2] == GateStep::Save);
}

/// The settings say what was done: encrypted after an encryption, not encrypted after a
/// decryption, and as before otherwise.
pub proof fn the_flags_say_what_was_done(s: GateFlags, f: GateFacts)
    ensures
        s.encrypt_pending && f.has_pass ==> gate_flags(s, f).encrypted && gate_flags(
            s,
            f,
        ).decrypt_pending == s.decrypt_pending,
        s.decrypt_pending && !(s.encrypt_pending && f.has_pass) ==> !gate_flags(s, f).encrypted
            && !gate_flags(s, f).decrypt_pending,
        !s.decrypt_pending && !(s.encrypt_pending && f.has_pass) ==> gate_flags(s, f).encrypted
            == s.encrypted && !gate_flags(s, f).decrypt_pending,
        !s.encrypted && !f.db_encrypted ==> gate_state(s, f) == Gate::Unlocked,
        s.encrypt_pending && f.has_pass ==> gate_state(s, f) == Gate::Unlocked,
        s.decrypt_pending ==> gate_state(s, f) == Gate::Unlocked,
{
}

} // verus!
