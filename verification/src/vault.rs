//! The vault session: the unlocked/locked/uninitialized state machine, the
//! lockout policy, and custody of the derived key while the vault is open.
//!
//! The session holds the at-rest vault aggregate in memory; the embedding
//! application persists a snapshot of it after every mutating call. Unlock is
//! a deterministic transition of the model, written out as `spec_unlock`, and
//! the executable method is proved to follow it exactly.

use vstd::prelude::*;

use crate::crypto::{decrypt_password, derive_key, derived_key, encrypt_password, sealed};
use crate::types::{
    entry_wf, vault_wf, PasswordVault, VaultError, VaultModel, MAX_FAILED_ATTEMPTS,
    MAX_PASSPHRASE_LEN, MAX_SECRET_LEN, MAX_STORED_CIPHER,
};

use zeroize::Zeroize;

verus! {

/// The plaintext every vault encrypts under its key at creation; decrypting
/// it is how a candidate passphrase is tested without touching real secrets.
pub open spec fn spec_canary() -> Seq<char> {
    "AXION_VAULT_VERIFICATION"@
}

/// The key opens this vault: the stored canary ciphertext is exactly what
/// sealing the canary under the key and the stored nonce produces.
pub open spec fn key_matches(v: VaultModel, key: Seq<u8>) -> bool {
    v.verification_hash == sealed(key, v.verification_nonce, spec_canary())
}

/// Mathematical image of a session: the vault on disk (if any) and the key
/// in memory (if unlocked).
pub struct SessionModel {
    pub vault: Option<VaultModel>,
    pub key: Option<Seq<u8>>,
}

/// A vault session. Holds the at-rest aggregate and, while unlocked, the
/// derived key; the key is zeroed whenever it is dropped from the session.
pub struct VaultSession {
    vault: Option<PasswordVault>,
    key: Option<Vec<u8>>,
}

impl View for VaultSession {
    type V = SessionModel;

    closed spec fn view(&self) -> SessionModel {
        SessionModel {
            vault: match self.vault {
                Some(ref v) => Some(v@),
                None => None,
            },
            key: match self.key {
                Some(ref k) => Some(k@),
                None => None,
            },
        }
    }
}

/// Relies on zeroize::Zeroize for Vec<u8>: every byte (and the spare
/// capacity) is overwritten with zeros and the vector is cleared.
#[verifier::external_body]
fn wipe(buf: &mut Vec<u8>)
    ensures
        final(buf)@.len() == 0,
{
    buf.zeroize();
}

/// Outcome of one unlock attempt on the session model: the new model and the
/// call's result. Unlock is deterministic, so it is a function.
pub open spec fn spec_unlock(s: SessionModel, pass: Seq<char>) -> (SessionModel, Result<
    bool,
    VaultError,
>) {
    match s.vault {
        None => (s, Err(VaultError::NotFound)),
        Some(v) => {
            if v.failed_attempts >= MAX_FAILED_ATTEMPTS {
                (SessionModel { vault: None, key: None }, Err(VaultError::LockedOut))
            } else if pass.len() == 0 {
                (s, Err(VaultError::KeyDerivation))
            } else {
                let k = derived_key(pass, v.salt);
                if key_matches(v, k) {
                    (
                        SessionModel {
                            vault: Some(VaultModel { failed_attempts: 0, ..v }),
                            key: Some(k),
                        },
                        Ok(true),
                    )
                } else if v.failed_attempts + 1 >= MAX_FAILED_ATTEMPTS {
                    (SessionModel { vault: None, key: None }, Err(VaultError::LockedOut))
                } else {
                    (
                        SessionModel {
                            vault: Some(
                                VaultModel {
                                    failed_attempts: (v.failed_attempts + 1) as u32,
                                    ..v
                                },
                            ),
                            key: s.key,
                        },
                        Err(
                            VaultError::InvalidPassword {
                                remaining: (MAX_FAILED_ATTEMPTS - (v.failed_attempts + 1)) as u32,
                            },
                        ),
                    )
                }
            }
        },
    }
}

/// Unlock attempts the session still tolerates before destroying the vault.
pub open spec fn spec_remaining(s: SessionModel) -> u32 {
    match s.vault {
        None => MAX_FAILED_ATTEMPTS,
        Some(v) => if v.failed_attempts >= MAX_FAILED_ATTEMPTS {
            0
        } else {
            (MAX_FAILED_ATTEMPTS - v.failed_attempts) as u32
        },
    }
}

impl VaultSession {
    /// Internal invariant: an unlocked session has a vault and a 32-byte
    /// key, and whatever vault is present is well formed.
    pub open spec fn wf(self) -> bool {
        &&& self@.key matches Some(k) ==> self@.vault is Some && k.len() == 32
        &&& self@.vault matches Some(v) ==> vault_wf(v)
    }

    /// A session over no vault at all (none was ever created, or it was
    /// destroyed).
    pub fn new() -> (s: VaultSession)
        ensures
            s.wf(),
            s@.vault is None,
            s@.key is None,
    {
        VaultSession { vault: None, key: None }
    }

    /// Adopts a vault read back from storage; the session starts locked.
    /// A malformed aggregate — wrong salt or nonce width, which also covers
    /// a legacy vault missing its verification nonce, or an oversized
    /// ciphertext — is rejected outright.
    pub fn from_stored(stored: PasswordVault) -> (r: Result<VaultSession, VaultError>)
        ensures
            r matches Ok(s) ==> s.wf() && s@.vault == Some(stored@) && s@.key is None && vault_wf(
                stored@,
            ),
            r matches Err(e) ==> e == VaultError::Format && !vault_wf(stored@),
    {
        if stored.metadata.salt.len() != 16 {
            return Err(VaultError::Format);
        }
        if stored.metadata.verification_nonce.len() != 12 {
            return Err(VaultError::Format);
        }
        let n = stored.entries.len();
        let mut i: usize = 0;
        while i < n
            invariant
                n == stored@.entries.len(),
                n == stored.entries@.len(),
                i <= n,
                forall|j: int| 0 <= j < i ==> entry_wf(#[trigger] stored@.entries[j]),
            decreases n - i,
        {
            let e = &stored.entries[i];
            if e.nonce.len() != 12 || e.encrypted_password.len() > MAX_STORED_CIPHER {
                assert(!entry_wf(stored@.entries[i as int]));
                return Err(VaultError::Format);
            }
            assert(entry_wf(stored@.entries[i as int]));
            i = i + 1;
        }
        Ok(VaultSession { vault: Some(stored), key: None })
    }

    /// A copy of the at-rest aggregate, for the caller to persist; `None`
    /// when no vault exists (the stored file, if any, must be removed).
    pub fn stored_vault(&self) -> (r: Option<PasswordVault>)
        ensures
            match r {
                Some(v) => self@.vault == Some(v@),
                None => self@.vault is None,
            },
    {
        match &self.vault {
            Some(v) => Some(copy_vault(v)),
            None => None,
        }
    }

    /// Whether a vault exists at all (on disk, in the caller's terms).
    pub fn vault_exists(&self) -> (r: bool)
        ensures
            r == (self@.vault is Some),
    {
        self.vault.is_some()
    }

    /// Whether a derived key is currently held in memory.
    pub fn is_vault_unlocked(&self) -> (r: bool)
        ensures
            r == (self@.key is Some),
    {
        self.key.is_some()
    }

    /// Drops the key from memory, zeroing it first; the stored vault is
    /// untouched.
    pub fn lock_vault(&mut self) -> (r: Result<bool, VaultError>)
        requires
            old(self).wf(),
        ensures
            final(self).wf(),
            r == Ok::<bool, VaultError>(true),
            final(self)@.key is None,
            final(self)@.vault == old(self)@.vault,
    {
        self.wipe_key();
        Ok(true)
    }

    /// Destroys the vault: zeroes and drops the key and forgets the stored
    /// aggregate. Idempotent.
    pub fn delete_vault(&mut self) -> (r: Result<bool, VaultError>)
        requires
            old(self).wf(),
        ensures
            final(self).wf(),
            r == Ok::<bool, VaultError>(true),
            final(self)@.key is None,
            final(self)@.vault is None,
    {
        self.wipe_key();
        self.vault = None;
        Ok(true)
    }

    /// How many failed unlocks are still tolerated before destruction.
    pub fn get_remaining_attempts(&self) -> (r: u32)
        ensures
            r == spec_remaining(self@),
    {
        match &self.vault {
            None => MAX_FAILED_ATTEMPTS,
            Some(v) => {
                if v.metadata.failed_attempts >= MAX_FAILED_ATTEMPTS {
                    0
                } else {
                    MAX_FAILED_ATTEMPTS - v.metadata.failed_attempts
                }
            },
        }
    }

    /// Creates a new vault from a master passphrase of at least eight
    /// characters, with a fresh random salt, a canary sealed under the
    /// derived key, a zero failure counter and no entries; the session comes
    /// out unlocked. Fails if a vault already exists.
    pub fn create_vault(&mut self, master_password: &str) -> (r: Result<bool, VaultError>)
        requires
            old(self).wf(),
            master_password@.len() <= MAX_PASSPHRASE_LEN,
        ensures
            final(self).wf(),
            r == Ok::<bool, VaultError>(true) <==> (master_password@.len() >= 8 && old(
                self,
            )@.vault is None),
            match r {
                Ok(b) => b && (final(self)@.vault matches Some(v) && {
                    &&& v.salt.len() == 16
                    &&& v.verification_nonce.len() == 12
                    &&& v.failed_attempts == 0
                    &&& v.entries.len() == 0
                    &&& key_matches(v, derived_key(master_password@, v.salt))
                    &&& final(self)@.key == Some(derived_key(master_password@, v.salt))
                }),
                Err(e) => final(self)@ == old(self)@ && (e == VaultError::WeakPassword <==> master_password@.len() < 8) && (e
                    == VaultError::WeakPassword || e == VaultError::AlreadyExists),
            },
    {
        if master_password.unicode_len() < 8 {
            return Err(VaultError::WeakPassword);
        }
        if self.vault.is_some() {
            return Err(VaultError::AlreadyExists);
        }
        let salt = crate::crypto::random_bytes(16);
        let key = match derive_key(master_password, salt.as_slice()) {
            Ok(k) => k,
            Err(_) => vstd::pervasive::unreached(),
        };
        let canary: &str = "AXION_VAULT_VERIFICATION";
        proof {
            reveal_strlit("AXION_VAULT_VERIFICATION");
            assert(canary@.len() <= MAX_SECRET_LEN);
        }
        let (verification_hash, verification_nonce) =
            match encrypt_password(canary, key.as_slice()) {
            Ok(p) => p,
            Err(_) => vstd::pervasive::unreached(),
        };
        let vault = PasswordVault {
            metadata: crate::types::VaultMetadata {
                salt,
                verification_hash,
                verification_nonce,
                failed_attempts: 0,
            },
            entries: Vec::new(),
        };
        proof {
            assert(vault@.entries =~= Seq::<crate::types::EntryModel>::empty());
        }
        self.vault = Some(vault);
        self.key = Some(key);
        Ok(true)
    }

    /// Attempts to unlock with a master passphrase: exactly the transition
    /// `spec_unlock` describes. The failure counter is checked before any
    /// derivation; a matching passphrase resets it to zero and stores the
    /// key; a wrong one increments it, and the increment that reaches the
    /// limit destroys the vault.
    pub fn unlock_vault(&mut self, master_password: &str) -> (r: Result<bool, VaultError>)
        requires
            old(self).wf(),
            master_password@.len() <= MAX_PASSPHRASE_LEN,
        ensures
            final(self).wf(),
            (final(self)@, r) == spec_unlock(old(self)@, master_password@),
    {
        if self.vault.is_none() {
            return Err(VaultError::NotFound);
        }
        let fa = match &self.vault {
            Some(v) => v.metadata.failed_attempts,
            None => vstd::pervasive::unreached(),
        };
        if fa >= MAX_FAILED_ATTEMPTS {
            self.wipe_key();
            self.vault = None;
            return Err(VaultError::LockedOut);
        }
        let derived = match &self.vault {
            Some(v) => {
                match derive_key(master_password, v.metadata.salt.as_slice()) {
                    Ok(k) => k,
                    Err(e) => {
                        return Err(e);
                    },
                }
            },
            None => vstd::pervasive::unreached(),
        };
        let matched = match &self.vault {
            Some(v) => {
                match decrypt_password(
                    v.metadata.verification_hash.as_slice(),
                    v.metadata.verification_nonce.as_slice(),
                    derived.as_slice(),
                ) {
                    Ok(p) => {
                        let canary = String::from_str("AXION_VAULT_VERIFICATION");
                        p == canary
                    },
                    Err(_) => false,
                }
            },
            None => vstd::pervasive::unreached(),
        };
        let mut v = match self.vault.take() {
            Some(v) => v,
            None => vstd::pervasive::unreached(),
        };
        if matched {
            v.metadata.failed_attempts = 0;
            self.vault = Some(v);
            self.key = Some(derived);
            Ok(true)
        } else {
            let fa1 = v.metadata.failed_attempts + 1;
            if fa1 >= MAX_FAILED_ATTEMPTS {
                self.wipe_key();
                self.vault = None;
                Err(VaultError::LockedOut)
            } else {
                v.metadata.failed_attempts = fa1;
                self.vault = Some(v);
                Err(VaultError::InvalidPassword { remaining: MAX_FAILED_ATTEMPTS - fa1 })
            }
        }
    }

    /// The in-memory key, for the entry operations.
    pub(crate) fn key_bytes(&self) -> (r: Option<&Vec<u8>>)
        ensures
            match r {
                Some(k) => self@.key == Some(k@),
                None => self@.key is None,
            },
    {
        self.key.as_ref()
    }

    /// The stored aggregate, borrowed, for the entry operations.
    pub(crate) fn vault_read(&self) -> (r: Option<&PasswordVault>)
        ensures
            match r {
                Some(v) => self@.vault == Some(v@),
                None => self@.vault is None,
            },
    {
        self.vault.as_ref()
    }

    /// Takes the stored aggregate out for a mutating entry operation.
    pub(crate) fn vault_take(&mut self) -> (r: Option<PasswordVault>)
        ensures
            match r {
                Some(v) => old(self)@.vault == Some(v@),
                None => old(self)@.vault is None,
            },
            final(self)@.vault is None,
            final(self)@.key == old(self)@.key,
    {
        self.vault.take()
    }

    /// Puts the (possibly modified) aggregate back.
    pub(crate) fn vault_put(&mut self, v: PasswordVault)
        ensures
            final(self)@.vault == Some(v@),
            final(self)@.key == old(self)@.key,
    {
        self.vault = Some(v);
    }

    /// Re-keys the vault: verifies the old passphrase by decrypting every
    /// entry under the key it derives (all-or-nothing: one failure aborts the
    /// whole operation with nothing written), then derives a key from the new
    /// passphrase with a fresh salt, re-encrypts every entry and the canary
    /// under it, resets the failure counter, and replaces the in-memory key.
    pub fn change_master_password(&mut self, old_password: &str, new_password: &str) -> (r: Result<
        bool,
        VaultError,
    >)
        requires
            old(self).wf(),
            old_password@.len() <= MAX_PASSPHRASE_LEN,
            new_password@.len() <= MAX_PASSPHRASE_LEN,
        ensures
            final(self).wf(),
            (r is Ok) <==> (new_password@.len() >= 8 && old_password@.len() > 0 && (old(
            self,
            )@.vault matches Some(v) && forall|i: int|
                0 <= i < v.entries.len() ==> crate::crypto::entry_decryptable(
                    derived_key(old_password@, v.salt),
                    #[trigger] v.entries[i],
                ))),
            match r {
                Ok(b) => b && (old(self)@.vault matches Some(v) && {
                    let ok = derived_key(old_password@, v.salt);
                    &&& new_password@.len() >= 8
                    &&& old_password@.len() > 0
                    &&& forall|i: int|
                        0 <= i < v.entries.len() ==> crate::crypto::entry_decryptable(
                            ok,
                            #[trigger] v.entries[i],
                        )
                    &&& (final(self)@.vault matches Some(w) && {
                        let nk = derived_key(new_password@, w.salt);
                        &&& w.salt.len() == 16
                        &&& w.verification_nonce.len() == 12
                        &&& w.failed_attempts == 0
                        &&& key_matches(w, nk)
                        &&& w.entries.len() == v.entries.len()
                        &&& (forall|i: int|
                            0 <= i < v.entries.len() ==> {
                                let e0 = #[trigger] v.entries[i];
                                let e1 = w.entries[i];
                                &&& e1.id == e0.id
                                &&& e1.url == e0.url
                                &&& e1.username == e0.username
                                &&& e1.created_at == e0.created_at
                                &&& e1.nonce.len() == 12
                                &&& e1.encrypted_password == sealed(
                                    nk,
                                    e1.nonce,
                                    crate::crypto::entry_plaintext(ok, e0),
                                )
                            })
                        &&& final(self)@.key == Some(nk)
                    })
                }),
                Err(e) => final(self)@ == old(self)@ && {
                    ||| (e == VaultError::WeakPassword && new_password@.len() < 8)
                    ||| (e == VaultError::NotFound && old(self)@.vault is None)
                    ||| (e == VaultError::KeyDerivation && old_password@.len() == 0)
                    ||| (e == VaultError::Authentication && (old(self)@.vault matches Some(v)
                        && exists|i: int|
                        0 <= i < v.entries.len() && !crate::crypto::entry_decryptable(
                            derived_key(old_password@, v.salt),
                            #[trigger] v.entries[i],
                        )))
                },
            },
    {
        if new_password.unicode_len() < 8 {
            return Err(VaultError::WeakPassword);
        }
        if self.vault.is_none() {
            return Err(VaultError::NotFound);
        }
        let ghost vm = self@.vault->0;
        let (old_key, plains): (Vec<u8>, Vec<String>) = {
            let v = match &self.vault {
                Some(v) => v,
                None => {
                    return Err(VaultError::NotFound);
                },
            };
            let old_key = match derive_key(old_password, v.metadata.salt.as_slice()) {
                Ok(k) => k,
                Err(e) => {
                    return Err(e);
                },
            };
            let n = v.entries.len();
            let mut plains: Vec<String> = Vec::new();
            let mut i: usize = 0;
            while i < n
                invariant
                    i <= n,
                    n == v.entries@.len(),
                    vm == v@,
                    vault_wf(vm),
                    old(self).wf(),
                    self@ == old(self)@,
                    old(self)@.vault == Some(vm),
                    old_key@.len() == 32,
                    old_key@ == derived_key(old_password@, vm.salt),
                    old_password@.len() > 0,
                    plains@.len() == i,
                    forall|j: int|
                        0 <= j < i ==> crate::crypto::entry_decryptable(
                            old_key@,
                            #[trigger] vm.entries[j],
                        ) && plains@[j]@ == crate::crypto::entry_plaintext(
                            old_key@,
                            vm.entries[j],
                        ) && plains@[j]@.len() + 16 <= vm.entries[j].encrypted_password.len()
                            && vstd::utf8::encode_utf8(plains@[j]@).len() + 16 == vm.entries[j].encrypted_password.len(),
                decreases n - i,
            {
                let e = &v.entries[i];
                assert(e@ == vm.entries[i as int]);
                assert(crate::types::entry_wf(vm.entries[i as int]));
                match decrypt_password(
                    e.encrypted_password.as_slice(),
                    e.nonce.as_slice(),
                    old_key.as_slice(),
                ) {
                    Ok(p) => {
                        proof {
                            let em = vm.entries[i as int];
                            assert(em.encrypted_password == sealed(old_key@, em.nonce, p@));
                            assert(crate::crypto::entry_decryptable(old_key@, em));
                            let q0 = choose|q: Seq<char>|
                                em.encrypted_password == sealed(old_key@, em.nonce, q);
                            assert(em.encrypted_password == sealed(old_key@, em.nonce, q0));
                            assert(q0 == p@);
                        }
                        plains.push(p);
                    },
                    Err(_) => {
                        proof {
                            let em = vm.entries[i as int];
                            assert(!crate::crypto::entry_decryptable(old_key@, em));
                        }
                        return Err(VaultError::Authentication);
                    },
                }
                i = i + 1;
            }
            (old_key, plains)
        };
        let new_salt = crate::crypto::random_bytes(16);
        let new_key = match derive_key(new_password, new_salt.as_slice()) {
            Ok(k) => k,
            Err(_) => vstd::pervasive::unreached(),
        };
        let mut v = match self.vault.take() {
            Some(v) => v,
            None => vstd::pervasive::unreached(),
        };
        let now = crate::operations::now_millis();
        let n = v.entries.len();
        let mut new_entries: Vec<crate::types::PasswordEntry> = Vec::new();
        let mut i: usize = 0;
        while i < n
            invariant
                i <= n,
                n == v.entries@.len(),
                vm == v@,
                vault_wf(vm),
                plains@.len() == n,
                new_key@.len() == 32,
                forall|j: int|
                    0 <= j < n ==> (#[trigger] plains@[j])@ == crate::crypto::entry_plaintext(
                        derived_key(old_password@, vm.salt),
                        vm.entries[j],
                    ) && plains@[j]@.len() + 16 <= vm.entries[j].encrypted_password.len()
                        && vstd::utf8::encode_utf8(plains@[j]@).len() + 16 == vm.entries[
                        j
                    ].encrypted_password.len(),
                new_entries@.len() == i,
                forall|j: int|
                    0 <= j < i ==> {
                        let e0 = vm.entries[j];
                        let e1 = (#[trigger] new_entries@[j])@;
                        &&& e1.id == e0.id
                        &&& e1.url == e0.url
                        &&& e1.username == e0.username
                        &&& e1.created_at == e0.created_at
                        &&& crate::types::entry_wf(e1)
                        &&& e1.encrypted_password == sealed(
                            new_key@,
                            e1.nonce,
                            crate::crypto::entry_plaintext(
                                derived_key(old_password@, vm.salt),
                                e0,
                            ),
                        )
                    },
            decreases n - i,
        {
            let e = &v.entries[i];
            let p = &plains[i];
            assert(e@ == vm.entries[i as int]);
            assert(crate::types::entry_wf(vm.entries[i as int]));
            let (cipher, nonce) = match encrypt_password(p.as_str(), new_key.as_slice()) {
                Ok(pair) => pair,
                Err(_) => vstd::pervasive::unreached(),
            };
            new_entries.push(
                crate::types::PasswordEntry {
                    id: e.id.clone(),
                    url: e.url.clone(),
                    username: e.username.clone(),
                    encrypted_password: cipher,
                    nonce,
                    created_at: e.created_at,
                    updated_at: now,
                },
            );
            i = i + 1;
        }
        let canary: &str = "AXION_VAULT_VERIFICATION";
        proof {
            reveal_strlit("AXION_VAULT_VERIFICATION");
            assert(canary@.len() <= MAX_STORED_CIPHER);
        }
        let (verification_hash, verification_nonce) =
            match encrypt_password(canary, new_key.as_slice()) {
            Ok(pair) => pair,
            Err(_) => vstd::pervasive::unreached(),
        };
        v.metadata.salt = new_salt;
        v.metadata.verification_hash = verification_hash;
        v.metadata.verification_nonce = verification_nonce;
        v.metadata.failed_attempts = 0;
        v.entries = new_entries;
        self.vault = Some(v);
        self.wipe_key();
        self.key = Some(new_key);
        Ok(true)
    }

    /// Zeroes and drops the in-memory key, leaving the vault as it is.
    fn wipe_key(&mut self)
        ensures
            final(self)@.key is None,
            final(self)@.vault == old(self)@.vault,
    {
        match self.key.take() {
            Some(mut k) => {
                wipe(&mut k);
            },
            None => {},
        }
    }
}

/// The session model after a run of unlock attempts, applied left to right.
/// Only the states matter here; the outcomes are recovered with
/// `spec_unlock` where a law needs them.
pub open spec fn spec_run_attempts(s: SessionModel, passes: Seq<Seq<char>>) -> SessionModel
    decreases passes.len(),
{
    if passes.len() == 0 {
        s
    } else {
        spec_run_attempts(spec_unlock(s, passes[0]).0, passes.drop_first())
    }
}

/// Law: any run of wrong, non-empty passphrases that stays below the attempt
/// limit only raises the failure counter — salt, canary and entries are
/// untouched — and a following unlock with a matching passphrase succeeds,
/// stores the derived key, and resets the counter to zero.
pub proof fn lemma_unlock_after_wrong_attempts(
    s: SessionModel,
    wrongs: Seq<Seq<char>>,
    pass: Seq<char>,
)
    requires
        s.vault is Some,
        s.vault->0.failed_attempts + wrongs.len() < MAX_FAILED_ATTEMPTS,
        forall|i: int| 0 <= i < wrongs.len() ==> (#[trigger] wrongs[i]).len() > 0,
        forall|i: int|
            0 <= i < wrongs.len() ==> !key_matches(
                s.vault->0,
                derived_key(#[trigger] wrongs[i], s.vault->0.salt),
            ),
        pass.len() > 0,
        key_matches(s.vault->0, derived_key(pass, s.vault->0.salt)),
    ensures
        ({
            let v = s.vault->0;
            let s1 = spec_run_attempts(s, wrongs);
            &&& s1.vault == Some(
                VaultModel { failed_attempts: (v.failed_attempts + wrongs.len()) as u32, ..v },
            )
            &&& spec_unlock(s1, pass).1 == Ok::<bool, VaultError>(true)
            &&& spec_unlock(s1, pass).0.vault == Some(VaultModel { failed_attempts: 0, ..v })
            &&& spec_unlock(s1, pass).0.key == Some(derived_key(pass, v.salt))
        }),
    decreases wrongs.len(),
{
    let v = s.vault->0;
    if wrongs.len() == 0 {
        assert(spec_run_attempts(s, wrongs) == s);
        assert(VaultModel { failed_attempts: (v.failed_attempts + 0) as u32, ..v } == v);
    } else {
        let first = wrongs[0];
        let s1 = spec_unlock(s, first).0;
        let v1 = VaultModel { failed_attempts: (v.failed_attempts + 1) as u32, ..v };
        assert(s1.vault == Some(v1));
        assert(spec_run_attempts(s, wrongs) == spec_run_attempts(s1, wrongs.drop_first()));
        assert forall|i: int| 0 <= i < wrongs.drop_first().len() implies (#[trigger] wrongs.drop_first()[i]).len()
            > 0 && !key_matches(v1, derived_key(wrongs.drop_first()[i], v1.salt)) by {
            assert(wrongs.drop_first()[i] == wrongs[i + 1]);
        }
        lemma_unlock_after_wrong_attempts(s1, wrongs.drop_first(), pass);
        assert(VaultModel {
            failed_attempts: (v1.failed_attempts + wrongs.drop_first().len()) as u32,
            ..v1
        } == VaultModel { failed_attempts: (v.failed_attempts + wrongs.len()) as u32, ..v });
        assert(VaultModel { failed_attempts: 0, ..v1 } == VaultModel { failed_attempts: 0, ..v });
    }
}

/// Law: the run of wrong, non-empty passphrases whose last attempt brings
/// the failure counter to the limit leaves no vault and no key behind, and
/// that last attempt reports the lockout.
pub proof fn lemma_lockout_destroys_vault(s: SessionModel, wrongs: Seq<Seq<char>>)
    requires
        s.vault is Some,
        wrongs.len() >= 1,
        s.vault->0.failed_attempts + wrongs.len() == MAX_FAILED_ATTEMPTS,
        forall|i: int| 0 <= i < wrongs.len() ==> (#[trigger] wrongs[i]).len() > 0,
        forall|i: int|
            0 <= i < wrongs.len() ==> !key_matches(
                s.vault->0,
                derived_key(#[trigger] wrongs[i], s.vault->0.salt),
            ),
    ensures
        spec_run_attempts(s, wrongs).vault is None,
        spec_run_attempts(s, wrongs).key is None,
        spec_unlock(spec_run_attempts(s, wrongs.drop_last()), wrongs.last()).1 == Err::<
            bool,
            VaultError,
        >(VaultError::LockedOut),
    decreases wrongs.len(),
{
    let v = s.vault->0;
    if wrongs.len() == 1 {
        assert(wrongs.drop_last().len() == 0);
        assert(spec_run_attempts(s, wrongs.drop_last()) == s);
        assert(wrongs.last() == wrongs[0]);
        assert(spec_run_attempts(s, wrongs) == spec_run_attempts(
            spec_unlock(s, wrongs[0]).0,
            wrongs.drop_first(),
        ));
        assert(spec_unlock(s, wrongs[0]).0.vault is None);
    } else {
        let first = wrongs[0];
        let s1 = spec_unlock(s, first).0;
        let v1 = VaultModel { failed_attempts: (v.failed_attempts + 1) as u32, ..v };
        assert(s1.vault == Some(v1));
        let rest = wrongs.drop_first();
        assert forall|i: int| 0 <= i < rest.len() implies (#[trigger] rest[i]).len() > 0
            && !key_matches(v1, derived_key(rest[i], v1.salt)) by {
            assert(rest[i] == wrongs[i + 1]);
        }
        lemma_lockout_destroys_vault(s1, rest);
        assert(spec_run_attempts(s, wrongs) == spec_run_attempts(s1, rest));
        assert(wrongs.drop_last()[0] == first);
        assert(wrongs.drop_last().drop_first() =~= rest.drop_last());
        assert(spec_run_attempts(s, wrongs.drop_last()) == spec_run_attempts(s1, rest.drop_last()));
        assert(wrongs.last() == rest.last());
    }
}

/// Copies one stored entry, field by field.
pub(crate) fn copy_entry(e: &crate::types::PasswordEntry) -> (r: crate::types::PasswordEntry)
    ensures
        r@ == e@,
{
    crate::types::PasswordEntry {
        id: e.id.clone(),
        url: e.url.clone(),
        username: e.username.clone(),
        encrypted_password: copy_bytes(&e.encrypted_password),
        nonce: copy_bytes(&e.nonce),
        created_at: e.created_at,
        updated_at: e.updated_at,
    }
}

/// Copies the whole at-rest aggregate, field by field.
fn copy_vault(v: &PasswordVault) -> (r: PasswordVault)
    ensures
        r@ == v@,
{
    let mut entries: Vec<crate::types::PasswordEntry> = Vec::new();
    let n = v.entries.len();
    let mut i: usize = 0;
    while i < n
        invariant
            n == v.entries@.len(),
            i <= n,
            entries@.len() == i,
            forall|j: int| 0 <= j < i ==> entries@[j]@ == #[trigger] v.entries@[j]@,
        decreases n - i,
    {
        entries.push(copy_entry(&v.entries[i]));
        i = i + 1;
    }
    let r = PasswordVault {
        metadata: crate::types::VaultMetadata {
            salt: copy_bytes(&v.metadata.salt),
            verification_hash: copy_bytes(&v.metadata.verification_hash),
            verification_nonce: copy_bytes(&v.metadata.verification_nonce),
            failed_attempts: v.metadata.failed_attempts,
        },
        entries,
    };
    proof {
        assert(r@.entries =~= v@.entries);
    }
    r
}

/// Copies a byte vector.
pub(crate) fn copy_bytes(v: &Vec<u8>) -> (r: Vec<u8>)
    ensures
        r@ == v@,
{
    let mut out: Vec<u8> = Vec::new();
    let n = v.len();
    let mut i: usize = 0;
    while i < n
        invariant
            n == v@.len(),
            i <= n,
            out@.len() == i,
            forall|j: int| 0 <= j < i ==> out@[j] == v@[j],
        decreases n - i,
    {
        out.push(v[i]);
        i = i + 1;
    }
    proof {
        assert(out@ =~= v@);
    }
    out
}

} // verus!
