//! Data model of the vault: the at-rest aggregate, the in-memory decrypted
//! entry, the error taxonomy, and the mathematical views the contracts use.

use vstd::prelude::*;

verus! {

/// Failed unlock attempts tolerated before the vault is destroyed.
pub const MAX_FAILED_ATTEMPTS: u32 = 15;

/// Longest stored ciphertext (in bytes) the vault accepts; keeps every
/// re-encryption far below the cipher's own message-length limit.
pub const MAX_STORED_CIPHER: usize = 0x0800_0000;

/// Longest secret (in characters) an entry may hold; guarantees that the
/// resulting ciphertext fits under `MAX_STORED_CIPHER`.
pub const MAX_SECRET_LEN: usize = 0x0100_0000;

/// Longest master passphrase (in characters) accepted; keeps the passphrase
/// within the key-derivation primitive's input limit.
pub const MAX_PASSPHRASE_LEN: usize = 0x0100_0000;

/// A stored credential: the password is present only as ciphertext.
#[derive(Debug, Clone)]
pub struct PasswordEntry {
    pub id: String,
    pub url: String,
    pub username: String,
    pub encrypted_password: Vec<u8>,
    pub nonce: Vec<u8>,
    pub created_at: i64,
    pub updated_at: i64,
}

/// A credential with its password decrypted; held in memory only.
#[derive(Debug, Clone)]
pub struct DecryptedPasswordEntry {
    pub id: String,
    pub url: String,
    pub username: String,
    pub password: String,
    pub created_at: i64,
    pub updated_at: i64,
}

/// Vault header: the key-derivation salt, the canary ciphertext used to test
/// a candidate passphrase, and the count of consecutive failed unlocks.
#[derive(Debug, Clone)]
pub struct VaultMetadata {
    pub salt: Vec<u8>,
    pub verification_hash: Vec<u8>,
    pub verification_nonce: Vec<u8>,
    pub failed_attempts: u32,
}

/// The whole at-rest vault: header plus encrypted entries.
#[derive(Debug, Clone)]
pub struct PasswordVault {
    pub metadata: VaultMetadata,
    pub entries: Vec<PasswordEntry>,
}

/// Everything a vault operation can fail with.
#[derive(Debug, Clone, PartialEq, Eq)]
pub enum VaultError {
    /// A new master passphrase is shorter than eight characters.
    WeakPassword,
    /// A vault already exists where `create` was asked to make one.
    AlreadyExists,
    /// No vault exists, or no entry carries the requested id.
    NotFound,
    /// The passphrase did not open the vault; `remaining` unlock attempts
    /// are left before the vault is destroyed.
    InvalidPassword { remaining: u32 },
    /// The attempt limit was reached; the vault has been destroyed.
    LockedOut,
    /// The operation needs the vault unlocked.
    VaultLocked,
    /// Authenticated decryption failed: wrong key or corrupted data.
    Authentication,
    /// The passphrase was rejected by key derivation (it was empty).
    KeyDerivation,
    /// The stored vault is malformed or of a legacy shape.
    Format,
}

/// Mathematical image of a stored entry.
pub struct EntryModel {
    pub id: Seq<char>,
    pub url: Seq<char>,
    pub username: Seq<char>,
    pub encrypted_password: Seq<u8>,
    pub nonce: Seq<u8>,
    pub created_at: i64,
    pub updated_at: i64,
}

/// Mathematical image of a decrypted entry.
pub struct DecryptedEntryModel {
    pub id: Seq<char>,
    pub url: Seq<char>,
    pub username: Seq<char>,
    pub password: Seq<char>,
    pub created_at: i64,
    pub updated_at: i64,
}

/// Mathematical image of the whole at-rest vault.
pub struct VaultModel {
    pub salt: Seq<u8>,
    pub verification_hash: Seq<u8>,
    pub verification_nonce: Seq<u8>,
    pub failed_attempts: u32,
    pub entries: Seq<EntryModel>,
}

impl View for PasswordEntry {
    type V = EntryModel;

    open spec fn view(&self) -> EntryModel {
        EntryModel {
            id: self.id@,
            url: self.url@,
            username: self.username@,
            encrypted_password: self.encrypted_password@,
            nonce: self.nonce@,
            created_at: self.created_at,
            updated_at: self.updated_at,
        }
    }
}

impl DeepView for PasswordEntry {
    type V = EntryModel;

    open spec fn deep_view(&self) -> EntryModel {
        self@
    }
}

impl View for DecryptedPasswordEntry {
    type V = DecryptedEntryModel;

    open spec fn view(&self) -> DecryptedEntryModel {
        DecryptedEntryModel {
            id: self.id@,
            url: self.url@,
            username: self.username@,
            password: self.password@,
            created_at: self.created_at,
            updated_at: self.updated_at,
        }
    }
}

impl DeepView for DecryptedPasswordEntry {
    type V = DecryptedEntryModel;

    open spec fn deep_view(&self) -> DecryptedEntryModel {
        self@
    }
}

impl View for PasswordVault {
    type V = VaultModel;

    open spec fn view(&self) -> VaultModel {
        VaultModel {
            salt: self.metadata.salt@,
            verification_hash: self.metadata.verification_hash@,
            verification_nonce: self.metadata.verification_nonce@,
            failed_attempts: self.metadata.failed_attempts,
            entries: self.entries.deep_view(),
        }
    }
}

/// A stored entry is well formed when its nonce has the cipher's fixed width
/// and its ciphertext is within the accepted size.
pub open spec fn entry_wf(e: EntryModel) -> bool {
    e.nonce.len() == 12 && e.encrypted_password.len() <= MAX_STORED_CIPHER
}

/// A vault is well formed when its salt and canary nonce have their fixed
/// widths and every entry is well formed.
pub open spec fn vault_wf(v: VaultModel) -> bool {
    &&& v.salt.len() == 16
    &&& v.verification_nonce.len() == 12
    &&& forall|i: int| 0 <= i < v.entries.len() ==> entry_wf(#[trigger] v.entries[i])
}

/// Filtering an entry list keeps every remaining entry well formed.
pub proof fn lemma_filter_keeps_wf(entries: Seq<EntryModel>, pred: spec_fn(EntryModel) -> bool)
    requires
        forall|i: int| 0 <= i < entries.len() ==> entry_wf(#[trigger] entries[i]),
    ensures
        forall|i: int|
            0 <= i < entries.filter(pred).len() ==> entry_wf(#[trigger] entries.filter(pred)[i]),
    decreases entries.len(),
{
    reveal(Seq::filter);
    if entries.len() > 0 {
        let prefix = entries.drop_last();
        assert forall|i: int| 0 <= i < prefix.len() implies entry_wf(#[trigger] prefix[i]) by {
            assert(prefix[i] == entries[i]);
        }
        lemma_filter_keeps_wf(prefix, pred);
        let f = entries.filter(pred);
        let pf = prefix.filter(pred);
        assert forall|i: int| 0 <= i < f.len() implies entry_wf(#[trigger] f[i]) by {
            if pred(entries.last()) {
                assert(f == pf.push(entries.last()));
                if i < pf.len() {
                    assert(f[i] == pf[i]);
                } else {
                    assert(f[i] == entries.last());
                    assert(entry_wf(entries[entries.len() - 1]));
                }
            } else {
                assert(f == pf);
            }
        }
    }
}

} // verus!
