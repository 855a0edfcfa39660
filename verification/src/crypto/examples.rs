//! Secure API-key storage patterns: a key manager that holds only
//! encrypted keys and decrypts them on demand, in memory.

use vstd::prelude::*;
use vstd::string::StringSliceAdditionalSpecFns;
use vstd::utf8::encode_utf8;
use crate::crypto::CryptoError;
use crate::crypto::EncryptedApiKey;
use crate::crypto::aes_encrypt;
use crate::crypto::generate_master_key;
use crate::strutil::str_eq;

verus! {

/// The first entry of `s` at or after `i` for `(service, key_id)`.
pub open spec fn key_lookup_from(
    s: Seq<EncryptedApiKey>,
    service: Seq<char>,
    key_id: Seq<char>,
    i: int,
) -> Option<EncryptedApiKey>
    decreases s.len() - i,
{
    if i < 0 || i >= s.len() {
        None
    } else if s[i].service@ == service && s[i].key_id@ == key_id {
        Some(s[i])
    } else {
        key_lookup_from(s, service, key_id, i + 1)
    }
}

/// The stored key for `(service, key_id)`, if any.
pub open spec fn key_lookup(
    s: Seq<EncryptedApiKey>,
    service: Seq<char>,
    key_id: Seq<char>,
) -> Option<EncryptedApiKey> {
    key_lookup_from(s, service, key_id, 0)
}

/// Stored pairs (service, key id) are pairwise distinct.
pub open spec fn distinct_pairs(s: Seq<EncryptedApiKey>) -> bool {
    forall|k: int, l: int|
        0 <= k < l < s.len() ==> !(s[k].service@ == s[l].service@ && s[k].key_id@
            == s[l].key_id@)
}

/// Secure API key manager for worker tasks: the master key never leaves
/// the manager except through `export_master_key`, and stored keys exist
/// only in encrypted form.
pub struct SecureKeyManager {
    master_key: [u8; 32],
    encrypted_keys: Vec<EncryptedApiKey>,
}

impl SecureKeyManager {
    /// The master key all stored keys are encrypted under.
    pub closed spec fn key(&self) -> Seq<u8> {
        self.master_key@
    }

    /// The stored entries, in storage order.
    pub closed spec fn entries(&self) -> Seq<EncryptedApiKey> {
        self.encrypted_keys@
    }

    pub open spec fn wf(&self) -> bool {
        distinct_pairs(self.entries())
    }

    /// Create a new key manager with a randomly generated master key.
    pub fn new() -> (r: Self)
        ensures
            r.wf(),
            r.entries() =~= Seq::<EncryptedApiKey>::empty(),
    {
        SecureKeyManager { master_key: generate_master_key(), encrypted_keys: Vec::new() }
    }

    /// Create a key manager with an existing master key.
    pub fn with_master_key(master_key: [u8; 32]) -> (r: Self)
        ensures
            r.wf(),
            r.key() == master_key@,
            r.entries() =~= Seq::<EncryptedApiKey>::empty(),
    {
        SecureKeyManager { master_key, encrypted_keys: Vec::new() }
    }

    fn find_index(&self, service: &str, key_id: &str) -> (r: Option<usize>)
        ensures
            match r {
                Some(i) => i < self.entries().len() && self.entries()[i as int].service@
                    == service@ && self.entries()[i as int].key_id@ == key_id@ && key_lookup(
                    self.entries(),
                    service@,
                    key_id@,
                ) == Some(self.entries()[i as int]),
                None => key_lookup(self.entries(), service@, key_id@) is None,
            },
    {
        let n = self.encrypted_keys.len();
        let mut j: usize = 0;
        while j < n
            invariant
                0 <= j <= n,
                n == self.encrypted_keys@.len(),
                key_lookup_from(self.encrypted_keys@, service@, key_id@, 0) == key_lookup_from(
                    self.encrypted_keys@,
                    service@,
                    key_id@,
                    j as int,
                ),
            decreases n - j,
        {
            let hit = str_eq(self.encrypted_keys[j].service.as_str(), service) && str_eq(
                self.encrypted_keys[j].key_id.as_str(),
                key_id,
            );
            if hit {
                return Some(j);
            }
            j = j + 1;
        }
        None
    }

    /// Store an API key encrypted under the master key, replacing any
    /// earlier key for the same service and id. Only the encrypted form is
    /// kept.
    pub fn store_api_key(
        &mut self,
        service: String,
        key_id: String,
        api_key: &str,
        expires_at: Option<u64>,
    )
        requires
            old(self).wf(),
            api_key.spec_bytes().len() < 0x1_0000_0000,
        ensures
            final(self).wf(),
            final(self).key() == old(self).key(),
            ({
                let entry = key_lookup(final(self).entries(), service@, key_id@);
                &&& entry is Some
                &&& entry matches Some(k) ==> k.service@ == service@ && k.key_id@ == key_id@
                    && k.expires_at == expires_at && k.encrypted_key.ciphertext@ == aes_encrypt(
                    old(self).key(),
                    k.encrypted_key.nonce@,
                    api_key.spec_bytes(),
                )
            }),
            forall|s2: Seq<char>, i2: Seq<char>|
                s2 != service@ || i2 != key_id@ ==> key_lookup(final(self).entries(), s2, i2)
                    == key_lookup(old(self).entries(), s2, i2),
    {
        let entry = EncryptedApiKey::new(service, key_id, api_key, &self.master_key, expires_at);
        let ghost before = self.encrypted_keys@;
        match self.find_index(entry.service.as_str(), entry.key_id.as_str()) {
            Some(i) => {
                let ghost v = entry;
                self.encrypted_keys.remove(i);
                self.encrypted_keys.insert(i, entry);
                proof {
                    assert(self.encrypted_keys@ =~= before.update(i as int, v));
                    lemma_key_lookup_update(before, i as int, v, v.service@, v.key_id@, 0);
                    assert forall|s2: Seq<char>, i2: Seq<char>|
                        s2 != v.service@ || i2 != v.key_id@ implies key_lookup(
                        self.encrypted_keys@,
                        s2,
                        i2,
                    ) == key_lookup(before, s2, i2) by {
                        lemma_key_lookup_update(before, i as int, v, s2, i2, 0);
                    }
                    assert forall|k: int, l: int|
                        0 <= k < l < self.encrypted_keys@.len() implies !((
                        #[trigger] self.encrypted_keys@[k]).service@ == (
                        #[trigger] self.encrypted_keys@[l]).service@
                            && self.encrypted_keys@[k].key_id@
                            == self.encrypted_keys@[l].key_id@) by {
                        if k != i {
                            assert(self.encrypted_keys@[k] == before[k]);
                        }
                        if l != i {
                            assert(self.encrypted_keys@[l] == before[l]);
                        }
                    }
                }
            },
            None => {
                let ghost v = entry;
                self.encrypted_keys.push(entry);
                proof {
                    lemma_key_lookup_none_tail(before, v.service@, v.key_id@, 0);
                    lemma_key_lookup_push(before, v, v.service@, v.key_id@, 0);
                    assert forall|s2: Seq<char>, i2: Seq<char>|
                        s2 != v.service@ || i2 != v.key_id@ implies key_lookup(
                        self.encrypted_keys@,
                        s2,
                        i2,
                    ) == key_lookup(before, s2, i2) by {
                        lemma_key_lookup_push(before, v, s2, i2, 0);
                    }
                    assert(self.encrypted_keys@[before.len() as int] == v);
                    assert forall|k: int, l: int|
                        0 <= k < l < self.encrypted_keys@.len() implies !((
                        #[trigger] self.encrypted_keys@[k]).service@ == (
                        #[trigger] self.encrypted_keys@[l]).service@
                            && self.encrypted_keys@[k].key_id@
                            == self.encrypted_keys@[l].key_id@) by {
                        if l < before.len() {
                            assert(self.encrypted_keys@[k] == before[k]);
                            assert(self.encrypted_keys@[l] == before[l]);
                        } else {
                            assert(self.encrypted_keys@[k] == before[k]);
                        }
                    }
                }
            },
        }
    }

    /// Retrieve and decrypt an API key, for immediate use in worker
    /// memory. An unknown pair and an expired key fail; on success the
    /// stored ciphertext is the encryption of the returned string's bytes
    /// under the master key — for a key this manager stored, the stored
    /// key itself.
    pub fn get_api_key(&self, service: &str, key_id: &str) -> (r: Result<String, CryptoError>)
        ensures
            key_lookup(self.entries(), service@, key_id@) is None ==> (r matches Err(e) && e
                is DecryptionFailed),
            match r {
                Ok(s) => key_lookup(self.entries(), service@, key_id@) matches Some(k)
                    && k.encrypted_key.ciphertext@ == aes_encrypt(
                    self.key(),
                    k.encrypted_key.nonce@,
                    encode_utf8(s@),
                ),
                Err(e) => e is DecryptionFailed || e is InvalidCiphertextBundle,
            },
    {
        match self.find_index(service, key_id) {
            Some(i) => {
                if self.encrypted_keys[i].is_expired() {
                    return Err(
                        CryptoError::DecryptionFailed("API key has expired".to_owned()),
                    );
                }
                self.encrypted_keys[i].decrypt_key(&self.master_key)
            },
            None => Err(CryptoError::DecryptionFailed("API key not found".to_owned())),
        }
    }

    /// List the stored keys without revealing their values: service, id,
    /// creation time, and whether each is expired against the clock (a key
    /// without an expiration time is never listed as expired).
    pub fn list_keys(&self) -> (r: Vec<(String, String, u64, bool)>)
        ensures
            r@.len() == self.entries().len(),
            forall|k: int|
                0 <= k < r@.len() ==> (#[trigger] r@[k]).0@ == self.entries()[k].service@
                    && r@[k].1@ == self.entries()[k].key_id@ && r@[k].2
                    == self.entries()[k].created_at && (self.entries()[k].expires_at is None
                    ==> r@[k].3 == false),
    {
        let n = self.encrypted_keys.len();
        let mut r: Vec<(String, String, u64, bool)> = Vec::new();
        let mut j: usize = 0;
        while j < n
            invariant
                0 <= j <= n,
                n == self.encrypted_keys@.len(),
                r@.len() == j,
                forall|k: int|
                    0 <= k < j ==> (#[trigger] r@[k]).0@ == self.encrypted_keys@[k].service@
                        && r@[k].1@ == self.encrypted_keys@[k].key_id@ && r@[k].2
                        == self.encrypted_keys@[k].created_at && (
                    self.encrypted_keys@[k].expires_at is None ==> r@[k].3 == false),
            decreases n - j,
        {
            let entry = &self.encrypted_keys[j];
            r.push((entry.service.clone(), entry.key_id.clone(), entry.created_at, entry.is_expired()));
            j = j + 1;
        }
        r
    }

    /// Remove a key; reports whether one was stored for the pair. After
    /// the call the pair is absent and every other pair is unchanged.
    pub fn remove_key(&mut self, service: &str, key_id: &str) -> (r: bool)
        requires
            old(self).wf(),
        ensures
            final(self).wf(),
            final(self).key() == old(self).key(),
            r == (key_lookup(old(self).entries(), service@, key_id@) is Some),
            key_lookup(final(self).entries(), service@, key_id@) is None,
            forall|s2: Seq<char>, i2: Seq<char>|
                s2 != service@ || i2 != key_id@ ==> key_lookup(final(self).entries(), s2, i2)
                    == key_lookup(old(self).entries(), s2, i2),
    {
        let ghost before = self.encrypted_keys@;
        match self.find_index(service, key_id) {
            Some(i) => {
                self.encrypted_keys.remove(i);
                proof {
                    lemma_key_lookup_remove_hit(before, i as int, service@, key_id@);
                    assert forall|s2: Seq<char>, i2: Seq<char>|
                        s2 != service@ || i2 != key_id@ implies key_lookup(
                        self.encrypted_keys@,
                        s2,
                        i2,
                    ) == key_lookup(before, s2, i2) by {
                        lemma_key_lookup_remove_other(before, i as int, s2, i2, 0);
                    }
                    assert forall|k: int, l: int|
                        0 <= k < l < self.encrypted_keys@.len() implies !((
                        #[trigger] self.encrypted_keys@[k]).service@ == (
                        #[trigger] self.encrypted_keys@[l]).service@
                            && self.encrypted_keys@[k].key_id@
                            == self.encrypted_keys@[l].key_id@) by {
                        let k0 = if k < i {
                            k
                        } else {
                            k + 1
                        };
                        let l0 = if l < i {
                            l
                        } else {
                            l + 1
                        };
                        assert(self.encrypted_keys@[k] == before[k0]);
                        assert(self.encrypted_keys@[l] == before[l0]);
                    }
                }
                true
            },
            None => false,
        }
    }

    /// Export the master key for secure backup; handle with extreme care.
    pub fn export_master_key(&self) -> (r: [u8; 32])
        ensures
            r@ == self.key(),
    {
        self.master_key
    }
}

proof fn lemma_key_lookup_update(
    s: Seq<EncryptedApiKey>,
    idx: int,
    v: EncryptedApiKey,
    s2: Seq<char>,
    i2: Seq<char>,
    i: int,
)
    requires
        0 <= idx < s.len(),
        0 <= i <= s.len(),
        v.service@ == s[idx].service@,
        v.key_id@ == s[idx].key_id@,
        distinct_pairs(s),
    ensures
        s2 == v.service@ && i2 == v.key_id@ && i <= idx ==> key_lookup_from(
            s.update(idx, v),
            s2,
            i2,
            i,
        ) == Some(v),
        s2 != v.service@ || i2 != v.key_id@ ==> key_lookup_from(s.update(idx, v), s2, i2, i)
            == key_lookup_from(s, s2, i2, i),
    decreases s.len() - i,
{
    if i < s.len() {
        lemma_key_lookup_update(s, idx, v, s2, i2, i + 1);
    }
}

proof fn lemma_key_lookup_push(
    s: Seq<EncryptedApiKey>,
    v: EncryptedApiKey,
    s2: Seq<char>,
    i2: Seq<char>,
    i: int,
)
    requires
        0 <= i <= s.len(),
    ensures
        key_lookup_from(s.push(v), s2, i2, i) == if key_lookup_from(s, s2, i2, i) is Some {
            key_lookup_from(s, s2, i2, i)
        } else if s2 == v.service@ && i2 == v.key_id@ {
            Some(v)
        } else {
            None
        },
    decreases s.len() - i,
{
    if i < s.len() {
        lemma_key_lookup_push(s, v, s2, i2, i + 1);
    } else {
        assert(s.push(v)[s.len() as int] == v);
        assert(key_lookup_from(s.push(v), s2, i2, s.len() as int + 1) is None);
    }
}

proof fn lemma_key_lookup_remove_hit(s: Seq<EncryptedApiKey>, idx: int, s2: Seq<char>, i2: Seq<char>)
    requires
        0 <= idx < s.len(),
        s[idx].service@ == s2,
        s[idx].key_id@ == i2,
        distinct_pairs(s),
    ensures
        key_lookup(s.remove(idx), s2, i2) is None,
{
    assert forall|k: int|
        0 <= k < s.remove(idx).len() implies !((#[trigger] s.remove(idx)[k]).service@ == s2
        && s.remove(idx)[k].key_id@ == i2) by {
        if k < idx {
            assert(s.remove(idx)[k] == s[k]);
        } else {
            assert(s.remove(idx)[k] == s[k + 1]);
        }
    }
    lemma_key_lookup_all_miss(s.remove(idx), s2, i2, 0);
}

proof fn lemma_key_lookup_none_tail(s: Seq<EncryptedApiKey>, s2: Seq<char>, i2: Seq<char>, i: int)
    requires
        0 <= i <= s.len(),
        key_lookup_from(s, s2, i2, i) is None,
    ensures
        forall|k: int| i <= k < s.len() ==> !(s[k].service@ == s2 && s[k].key_id@ == i2),
    decreases s.len() - i,
{
    if i < s.len() {
        lemma_key_lookup_none_tail(s, s2, i2, i + 1);
    }
}

proof fn lemma_key_lookup_all_miss(s: Seq<EncryptedApiKey>, s2: Seq<char>, i2: Seq<char>, i: int)
    requires
        0 <= i <= s.len(),
        forall|k: int| 0 <= k < s.len() ==> !(s[k].service@ == s2 && s[k].key_id@ == i2),
    ensures
        key_lookup_from(s, s2, i2, i) is None,
    decreases s.len() - i,
{
    if i < s.len() {
        lemma_key_lookup_all_miss(s, s2, i2, i + 1);
    }
}

proof fn lemma_key_lookup_remove_other(
    s: Seq<EncryptedApiKey>,
    idx: int,
    s2: Seq<char>,
    i2: Seq<char>,
    i: int,
)
    requires
        0 <= idx < s.len(),
        0 <= i <= s.len() - 1,
        !(s[idx].service@ == s2 && s[idx].key_id@ == i2),
    ensures
        key_lookup_from(s.remove(idx), s2, i2, i) == if i <= idx {
            key_lookup_from(s, s2, i2, i)
        } else {
            key_lookup_from(s, s2, i2, i + 1)
        },
    decreases s.len() - i,
{
    if i < s.len() - 1 {
        lemma_key_lookup_remove_other(s, idx, s2, i2, i + 1);
    }
}

} // verus!
