//! Entry operations over an unlocked session: list, add, update, delete,
//! case-insensitive search, and host-based lookup for autofill.

use vstd::prelude::*;

use crate::crypto::{
    decrypt_password, encrypt_password, entry_decryptable, entry_plaintext, sealed,
};
use crate::text::{contains_sub, lower_seq, spec_contains, to_lowercase_str};
use crate::types::{
    entry_wf, DecryptedEntryModel, DecryptedPasswordEntry, EntryModel, PasswordEntry,
    PasswordVault, VaultError, VaultModel, MAX_SECRET_LEN,
};
use crate::urls::{extract_hostname, hosts_match, spec_hostname, spec_hosts_match};
use crate::vault::{copy_entry, VaultSession};

verus! {

/// Relies on uuid::Uuid::new_v4 and its hyphenated text form: a fresh random
/// identifier, written as 36 characters. Nothing is assumed about which.
#[verifier::external_body]
fn new_uuid() -> (r: String)
    ensures
        r@.len() == 36,
{
    uuid::Uuid::new_v4().to_string()
}

/// Relies on chrono::Utc::now().timestamp_millis: the wall clock, in
/// milliseconds since the Unix epoch. Nothing is assumed about the value.
#[verifier::external_body]
pub(crate) fn now_millis() -> i64 {
    chrono::Utc::now().timestamp_millis()
}

/// Every entry's ciphertext opens under this key.
pub open spec fn all_decryptable(key: Seq<u8>, entries: Seq<EntryModel>) -> bool {
    forall|i: int| 0 <= i < entries.len() ==> entry_decryptable(key, #[trigger] entries[i])
}

/// The decrypted image of one stored entry under a key.
pub open spec fn decrypted_entry(key: Seq<u8>, e: EntryModel) -> DecryptedEntryModel {
    DecryptedEntryModel {
        id: e.id,
        url: e.url,
        username: e.username,
        password: entry_plaintext(key, e),
        created_at: e.created_at,
        updated_at: e.updated_at,
    }
}

/// The decrypted image of a whole entry list under a key.
pub open spec fn decrypted_entries(key: Seq<u8>, entries: Seq<EntryModel>) -> Seq<
    DecryptedEntryModel,
> {
    entries.map_values(|e: EntryModel| decrypted_entry(key, e))
}

/// An entry answers a search query: the query occurs, case-insensitively, in
/// its URL or in its username.
pub open spec fn matches_query(d: DecryptedEntryModel, q: Seq<char>) -> bool {
    spec_contains(lower_seq(d.url), lower_seq(q)) || spec_contains(lower_seq(d.username), lower_seq(q))
}

/// Copies one decrypted entry, field by field.
fn copy_decrypted(d: &DecryptedPasswordEntry) -> (r: DecryptedPasswordEntry)
    ensures
        r@ == d@,
{
    DecryptedPasswordEntry {
        id: d.id.clone(),
        url: d.url.clone(),
        username: d.username.clone(),
        password: d.password.clone(),
        created_at: d.created_at,
        updated_at: d.updated_at,
    }
}

impl VaultSession {
    /// Decrypts and returns every stored entry. Requires the session to be
    /// unlocked; fails as a whole if any single entry does not decrypt
    /// (a corrupted or tampered entry is fatal, not skippable).
    pub fn get_passwords(&self) -> (r: Result<Vec<DecryptedPasswordEntry>, VaultError>)
        requires
            self.wf(),
        ensures
            match r {
                Ok(list) => self@.key matches Some(k) && self@.vault matches Some(v) && {
                    &&& all_decryptable(k, v.entries)
                    &&& list.deep_view() == decrypted_entries(k, v.entries)
                },
                Err(e) => {
                    ||| (e == VaultError::VaultLocked && self@.key is None)
                    ||| (e == VaultError::Authentication && (self@.key matches Some(k) && (
                    self@.vault matches Some(v) && !all_decryptable(k, v.entries))))
                },
            },
    {
        let key = match self.key_bytes() {
            Some(k) => k,
            None => {
                return Err(VaultError::VaultLocked);
            },
        };
        let vault = match self.vault_read() {
            Some(v) => v,
            None => vstd::pervasive::unreached(),
        };
        let ghost km = key@;
        let ghost vm = vault@;
        let n = vault.entries.len();
        let mut out: Vec<DecryptedPasswordEntry> = Vec::new();
        let mut i: usize = 0;
        while i < n
            invariant
                i <= n,
                n == vault.entries@.len(),
                n == vm.entries.len(),
                km.len() == 32,
                vm == vault@,
                km == key@,
                self@.key == Some(km),
                self@.vault == Some(vm),
                crate::types::vault_wf(vm),
                out@.len() == i,
                forall|j: int|
                    0 <= j < i ==> entry_decryptable(km, #[trigger] vm.entries[j]) && out@[j]@
                        == decrypted_entry(km, vm.entries[j]),
            decreases n - i,
        {
            let e = &vault.entries[i];
            assert(e@ == vm.entries[i as int]);
            assert(entry_wf(vm.entries[i as int]));
            match decrypt_password(
                e.encrypted_password.as_slice(),
                e.nonce.as_slice(),
                key.as_slice(),
            ) {
                Ok(p) => {
                    proof {
                        let em = vm.entries[i as int];
                        assert(em.encrypted_password == sealed(km, em.nonce, p@));
                        assert(entry_decryptable(km, em));
                        let q0 = choose|q: Seq<char>|
                            em.encrypted_password == sealed(km, em.nonce, q);
                        assert(em.encrypted_password == sealed(km, em.nonce, q0));
                        assert(q0 == p@);
                    }
                    out.push(
                        DecryptedPasswordEntry {
                            id: e.id.clone(),
                            url: e.url.clone(),
                            username: e.username.clone(),
                            password: p,
                            created_at: e.created_at,
                            updated_at: e.updated_at,
                        },
                    );
                },
                Err(_) => {
                    proof {
                        let em = vm.entries[i as int];
                        assert(!entry_decryptable(km, em));
                        assert(!all_decryptable(km, vm.entries));
                    }
                    return Err(VaultError::Authentication);
                },
            }
            i = i + 1;
        }
        proof {
            assert(out.deep_view() =~= decrypted_entries(km, vm.entries));
        }
        Ok(out)
    }

    /// Adds a credential: assigns a fresh identifier and the current time for
    /// both timestamps, encrypts the password under the session key with a
    /// fresh nonce, appends the entry, and returns the stored (encrypted)
    /// entry. Requires the session to be unlocked.
    pub fn add_password(&mut self, url: String, username: String, password: String) -> (r: Result<
        PasswordEntry,
        VaultError,
    >)
        requires
            old(self).wf(),
            password@.len() <= MAX_SECRET_LEN,
        ensures
            final(self).wf(),
            (r is Ok) <==> old(self)@.key is Some,
            match r {
                Ok(e) => old(self)@.key matches Some(k) && old(self)@.vault matches Some(v) && {
                    &&& e@.url == url@
                    &&& e@.username == username@
                    &&& e@.nonce.len() == 12
                    &&& e@.encrypted_password == sealed(k, e@.nonce, password@)
                    &&& e@.created_at == e@.updated_at
                    &&& final(self)@.vault == Some(VaultModel { entries: v.entries.push(e@), ..v })
                    &&& final(self)@.key == old(self)@.key
                },
                Err(err) => err == VaultError::VaultLocked && final(self)@ == old(self)@,
            },
    {
        let (cipher, nonce) = match self.key_bytes() {
            Some(k) => {
                match encrypt_password(password.as_str(), k.as_slice()) {
                    Ok(p) => p,
                    Err(_) => vstd::pervasive::unreached(),
                }
            },
            None => {
                return Err(VaultError::VaultLocked);
            },
        };
        let id = new_uuid();
        let now = now_millis();
        let entry = PasswordEntry {
            id,
            url,
            username,
            encrypted_password: cipher,
            nonce,
            created_at: now,
            updated_at: now,
        };
        let returned = copy_entry(&entry);
        let mut v = match self.vault_take() {
            Some(v) => v,
            None => vstd::pervasive::unreached(),
        };
        let ghost vm = v@;
        v.entries.push(entry);
        proof {
            assert(v@.entries =~= vm.entries.push(returned@));
            assert(v@ == VaultModel { entries: vm.entries.push(returned@), ..vm });
        }
        self.vault_put(v);
        Ok(returned)
    }

    /// Index of the first entry carrying the given id, if any.
    fn find_index(&self, id: &String) -> (r: Option<usize>)
        requires
            self@.vault is Some,
        ensures
            match r {
                Some(i) => {
                    let es = self@.vault->0.entries;
                    &&& 0 <= i < es.len()
                    &&& es[i as int].id == id@
                    &&& forall|j: int| 0 <= j < i ==> (#[trigger] es[j]).id != id@
                },
                None => {
                    let es = self@.vault->0.entries;
                    forall|j: int| 0 <= j < es.len() ==> (#[trigger] es[j]).id != id@
                },
            },
    {
        let vault = match self.vault_read() {
            Some(v) => v,
            None => vstd::pervasive::unreached(),
        };
        let n = vault.entries.len();
        let mut i: usize = 0;
        while i < n
            invariant
                i <= n,
                n == vault.entries@.len(),
                self@.vault == Some(vault@),
                forall|j: int| 0 <= j < i ==> (#[trigger] vault@.entries[j]).id != id@,
            decreases n - i,
        {
            let e = &vault.entries[i];
            if e.id == *id {
                return Some(i);
            }
            assert(vault@.entries[i as int].id != id@);
            i = i + 1;
        }
        None
    }

    /// Partial update of the entry with the given id: each field supplied
    /// replaces the stored one, the password being re-encrypted under a
    /// fresh nonce; `updated_at` is refreshed either way, `created_at` and
    /// the id never change. Requires the session to be unlocked; fails with
    /// `NotFound` when no entry has the id.
    pub fn update_password(
        &mut self,
        id: String,
        url: Option<String>,
        username: Option<String>,
        password: Option<String>,
    ) -> (r: Result<PasswordEntry, VaultError>)
        requires
            old(self).wf(),
            password matches Some(p) ==> p@.len() <= MAX_SECRET_LEN,
        ensures
            final(self).wf(),
            (r is Ok) <==> (old(self)@.key is Some && (old(self)@.vault matches Some(v)
                && exists|j: int| 0 <= j < v.entries.len() && (#[trigger] v.entries[j]).id
                == id@)),
            match r {
                Ok(e) => old(self)@.key matches Some(k) && (old(self)@.vault matches Some(v) && {
                    &&& exists|idx: int|
                        {
                            &&& 0 <= idx < v.entries.len()
                            &&& (#[trigger] v.entries[idx]).id == id@
                            &&& (forall|j: int| 0 <= j < idx ==> (#[trigger] v.entries[j]).id != id@)
                            &&& e@.id == v.entries[idx].id
                            &&& e@.created_at == v.entries[idx].created_at
                            &&& e@.url == (match url {
                                Some(u) => u@,
                                None => v.entries[idx].url,
                            })
                            &&& e@.username == (match username {
                                Some(u) => u@,
                                None => v.entries[idx].username,
                            })
                            &&& (match password {
                                Some(p) => e@.encrypted_password == sealed(k, e@.nonce, p@)
                                    && e@.nonce.len() == 12,
                                None => e@.encrypted_password == v.entries[idx].encrypted_password
                                    && e@.nonce == v.entries[idx].nonce,
                            })
                            &&& final(self)@.vault == Some(
                                VaultModel { entries: v.entries.update(idx, e@), ..v },
                            )
                        }
                    &&& final(self)@.key == old(self)@.key
                }),
                Err(err) => {
                    &&& final(self)@ == old(self)@
                    &&& (err == VaultError::VaultLocked <==> old(self)@.key is None)
                    &&& (err == VaultError::NotFound ==> (old(self)@.vault matches Some(v)
                        ==> forall|j: int|
                        0 <= j < v.entries.len() ==> (#[trigger] v.entries[j]).id != id@))
                    &&& (err == VaultError::VaultLocked || err == VaultError::NotFound)
                },
            },
    {
        if self.key_bytes().is_none() {
            return Err(VaultError::VaultLocked);
        }
        let idx: usize = match self.find_index(&id) {
            Some(x) => x,
            None => {
                return Err(VaultError::NotFound);
            },
        };
        let key = match self.key_bytes() {
            Some(k) => k,
            None => vstd::pervasive::unreached(),
        };
        let (new_cipher, new_nonce): (Option<Vec<u8>>, Option<Vec<u8>>) = match &password {
            Some(p) => {
                match encrypt_password(p.as_str(), key.as_slice()) {
                    Ok(pair) => (Some(pair.0), Some(pair.1)),
                    Err(_) => vstd::pervasive::unreached(),
                }
            },
            None => (None, None),
        };
        let mut v = match self.vault_take() {
            Some(v) => v,
            None => vstd::pervasive::unreached(),
        };
        let ghost vm = v@;
        proof {
            assert(vm.entries.len() == v.entries@.len());
            assert(idx < v.entries@.len());
        }
        let old_entry = v.entries.remove(idx);
        let updated = PasswordEntry {
            id: old_entry.id,
            url: match url {
                Some(u) => u,
                None => old_entry.url,
            },
            username: match username {
                Some(u) => u,
                None => old_entry.username,
            },
            encrypted_password: match new_cipher {
                Some(c) => c,
                None => old_entry.encrypted_password,
            },
            nonce: match new_nonce {
                Some(nc) => nc,
                None => old_entry.nonce,
            },
            created_at: old_entry.created_at,
            updated_at: now_millis(),
        };
        let returned = copy_entry(&updated);
        v.entries.insert(idx, updated);
        proof {
            assert(v@.entries =~= vm.entries.update(idx as int, returned@));
            assert(v@ == VaultModel { entries: vm.entries.update(idx as int, returned@), ..vm });
        }
        self.vault_put(v);
        Ok(returned)
    }

    /// Removes every entry with the given id. Requires the session to be
    /// unlocked; fails with `NotFound` when no entry has the id (not a
    /// silent no-op).
    pub fn delete_password(&mut self, id: String) -> (r: Result<bool, VaultError>)
        requires
            old(self).wf(),
        ensures
            final(self).wf(),
            (r is Ok) <==> (old(self)@.key is Some && (old(self)@.vault matches Some(v)
                && exists|j: int| 0 <= j < v.entries.len() && (#[trigger] v.entries[j]).id
                == id@)),
            match r {
                Ok(b) => b && old(self)@.key is Some && (old(self)@.vault matches Some(v) && {
                    &&& exists|j: int|
                        0 <= j < v.entries.len() && (#[trigger] v.entries[j]).id == id@
                    &&& final(self)@.vault == Some(
                        VaultModel {
                            entries: v.entries.filter(|e: EntryModel| e.id != id@),
                            ..v
                        },
                    )
                    &&& final(self)@.key == old(self)@.key
                }),
                Err(err) => {
                    &&& final(self)@ == old(self)@
                    &&& (err == VaultError::VaultLocked <==> old(self)@.key is None)
                    &&& (err == VaultError::NotFound ==> (old(self)@.vault matches Some(v)
                        ==> forall|j: int|
                        0 <= j < v.entries.len() ==> (#[trigger] v.entries[j]).id != id@))
                    &&& (err == VaultError::VaultLocked || err == VaultError::NotFound)
                },
            },
    {
        broadcast use vstd::seq_lib::group_filter_ensures;
        broadcast use Seq::lemma_filter_push;

        if self.key_bytes().is_none() {
            return Err(VaultError::VaultLocked);
        }
        let ghost pred = |e: EntryModel| e.id != id@;
        let (kept, found): (Vec<PasswordEntry>, bool) = {
            let vault = match self.vault_read() {
                Some(v) => v,
                None => vstd::pervasive::unreached(),
            };
            let n = vault.entries.len();
            let mut kept: Vec<PasswordEntry> = Vec::new();
            let mut found = false;
            let mut i: usize = 0;
            while i < n
                invariant
                    i <= n,
                    n == vault.entries@.len(),
                    kept.deep_view() =~= vault@.entries.take(i as int).filter(pred),
                    pred == (|e: EntryModel| e.id != id@),
                    found <==> exists|j: int|
                        0 <= j < i && (#[trigger] vault@.entries[j]).id == id@,
                decreases n - i,
            {
                let e = &vault.entries[i];
                let ghost prev = vault@.entries.take(i as int);
                let ghost x = vault@.entries[i as int];
                let ghost kdv = kept.deep_view();
                proof {
                    assert(vault@.entries.take(i + 1) =~= prev.push(x));
                }
                if e.id == id {
                    found = true;
                    proof {
                        prev.lemma_filter_push(x, pred);
                        assert(!pred(x));
                        assert(prev.push(x).filter(pred) == prev.filter(pred));
                        assert(kept.deep_view() =~= vault@.entries.take(i + 1).filter(pred));
                    }
                } else {
                    kept.push(copy_entry(e));
                    proof {
                        prev.lemma_filter_push(x, pred);
                        assert(pred(x));
                        assert(prev.push(x).filter(pred) == prev.filter(pred).push(x));
                        assert(kept.deep_view() =~= kdv.push(x));
                        assert(kept.deep_view() =~= vault@.entries.take(i + 1).filter(pred));
                    }
                }
                i = i + 1;
            }
            proof {
                assert(vault@.entries.take(n as int) =~= vault@.entries);
            }
            (kept, found)
        };
        if !found {
            return Err(VaultError::NotFound);
        }
        let mut v = match self.vault_take() {
            Some(v) => v,
            None => vstd::pervasive::unreached(),
        };
        let ghost vm = v@;
        v.entries = kept;
        proof {
            assert(v@ == VaultModel { entries: vm.entries.filter(pred), ..vm });
            crate::types::lemma_filter_keeps_wf(vm.entries, pred);
        }
        self.vault_put(v);
        Ok(true)
    }

    /// Case-insensitive substring search over the decrypted entries: an
    /// entry answers when the query occurs in its URL or its username.
    /// Requires the session to be unlocked; fails as `get_passwords` does.
    pub fn search_passwords(&self, query: String) -> (r: Result<
        Vec<DecryptedPasswordEntry>,
        VaultError,
    >)
        requires
            self.wf(),
        ensures
            match r {
                Ok(list) => self@.key matches Some(k) && (self@.vault matches Some(v) && {
                    &&& all_decryptable(k, v.entries)
                    &&& list.deep_view() == decrypted_entries(k, v.entries).filter(
                        |d: DecryptedEntryModel| matches_query(d, query@),
                    )
                }),
                Err(e) => {
                    ||| (e == VaultError::VaultLocked && self@.key is None)
                    ||| (e == VaultError::Authentication && (self@.key matches Some(k) && (
                    self@.vault matches Some(v) && !all_decryptable(k, v.entries))))
                },
            },
    {
        broadcast use Seq::lemma_filter_push;
        broadcast use vstd::seq_lib::group_filter_ensures;

        let all = match self.get_passwords() {
            Ok(l) => l,
            Err(e) => {
                return Err(e);
            },
        };
        let lq = to_lowercase_str(query.as_str());
        let ghost pred = |d: DecryptedEntryModel| matches_query(d, query@);
        let n = all.len();
        let mut out: Vec<DecryptedPasswordEntry> = Vec::new();
        let mut i: usize = 0;
        while i < n
            invariant
                i <= n,
                n == all@.len(),
                lq@ == lower_seq(query@),
                out.deep_view() =~= all.deep_view().take(i as int).filter(pred),
                pred == (|d: DecryptedEntryModel| matches_query(d, query@)),
            decreases n - i,
        {
            let d = &all[i];
            let ghost prev = all.deep_view().take(i as int);
            let ghost x = all.deep_view()[i as int];
            let ghost odv = out.deep_view();
            proof {
                assert(all.deep_view().take(i + 1) =~= prev.push(x));
                prev.lemma_filter_push(x, pred);
            }
            let lu = to_lowercase_str(d.url.as_str());
            let lus = to_lowercase_str(d.username.as_str());
            let m = contains_sub(lu.as_str(), lq.as_str()) || contains_sub(
                lus.as_str(),
                lq.as_str(),
            );
            proof {
                assert(x == d@);
                assert(m == pred(x));
            }
            if m {
                out.push(copy_decrypted(d));
                proof {
                    assert(out.deep_view() =~= odv.push(x));
                    assert(out.deep_view() =~= all.deep_view().take(i + 1).filter(pred));
                }
            } else {
                proof {
                    assert(out.deep_view() =~= all.deep_view().take(i + 1).filter(pred));
                }
            }
            i = i + 1;
        }
        proof {
            assert(all.deep_view().take(n as int) =~= all.deep_view());
        }
        Ok(out)
    }

    /// Entries whose stored URL names the same host as the given one: the
    /// hostname is extracted from each side (assuming https when no scheme is
    /// present) and compared after dropping a leading "www.". An empty
    /// extracted hostname matches nothing. Requires the session to be
    /// unlocked; fails as `get_passwords` does.
    pub fn get_passwords_for_url(&self, url: String) -> (r: Result<
        Vec<DecryptedPasswordEntry>,
        VaultError,
    >)
        requires
            self.wf(),
        ensures
            match r {
                Ok(list) => self@.key matches Some(k) && (self@.vault matches Some(v) && {
                    &&& all_decryptable(k, v.entries)
                    &&& ({
                        let target = spec_hostname(url@);
                        if target.len() == 0 {
                            list@.len() == 0
                        } else {
                            list.deep_view() == decrypted_entries(k, v.entries).filter(
                                |d: DecryptedEntryModel|
                                    spec_hosts_match(target, spec_hostname(d.url)),
                            )
                        }
                    })
                }),
                Err(e) => {
                    ||| (e == VaultError::VaultLocked && self@.key is None)
                    ||| (e == VaultError::Authentication && (self@.key matches Some(k) && (
                    self@.vault matches Some(v) && !all_decryptable(k, v.entries))))
                },
            },
    {
        broadcast use Seq::lemma_filter_push;
        broadcast use vstd::seq_lib::group_filter_ensures;

        let all = match self.get_passwords() {
            Ok(l) => l,
            Err(e) => {
                return Err(e);
            },
        };
        let target = extract_hostname(url.as_str());
        if target.unicode_len() == 0 {
            return Ok(Vec::new());
        }
        let ghost tg = spec_hostname(url@);
        let ghost pred = |d: DecryptedEntryModel| spec_hosts_match(tg, spec_hostname(d.url));
        let n = all.len();
        let mut out: Vec<DecryptedPasswordEntry> = Vec::new();
        let mut i: usize = 0;
        while i < n
            invariant
                i <= n,
                n == all@.len(),
                target@ == tg,
                out.deep_view() =~= all.deep_view().take(i as int).filter(pred),
                pred == (|d: DecryptedEntryModel| spec_hosts_match(tg, spec_hostname(d.url))),
            decreases n - i,
        {
            let d = &all[i];
            let ghost prev = all.deep_view().take(i as int);
            let ghost x = all.deep_view()[i as int];
            let ghost odv = out.deep_view();
            proof {
                assert(all.deep_view().take(i + 1) =~= prev.push(x));
                prev.lemma_filter_push(x, pred);
            }
            let stored_host = extract_hostname(d.url.as_str());
            let m = hosts_match(target.as_str(), stored_host.as_str());
            proof {
                assert(x == d@);
                assert(m == pred(x));
            }
            if m {
                out.push(copy_decrypted(d));
                proof {
                    assert(out.deep_view() =~= odv.push(x));
                    assert(out.deep_view() =~= all.deep_view().take(i + 1).filter(pred));
                }
            } else {
                proof {
                    assert(out.deep_view() =~= all.deep_view().take(i + 1).filter(pred));
                }
            }
            i = i + 1;
        }
        proof {
            assert(all.deep_view().take(n as int) =~= all.deep_view());
        }
        Ok(out)
    }
}

} // verus!
