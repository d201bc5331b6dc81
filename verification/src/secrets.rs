//! Secrets: their kinds and references, the errors of the secret store, the
//! master-key vault, and the sealing of secrets with AES-256-GCM under the
//! master key.
use vstd::prelude::*;

use aes_gcm::aead::Aead;
use aes_gcm::KeyInit;
use base64::Engine;

use crate::text::{cat, chars_of, slice_copy, starts_with, starts_with_chars, str_eq};

verus! {

/// The categories of stored secrets.
#[derive(Debug, Clone, Copy, PartialEq, Eq, Structural)]
pub enum SecretKind {
    DnsProviderToken,
    DnsProviderAccessKey,
    DnsProviderSecretKey,
    AcmeAccountKey,
    ManagedPrivateKey,
}

/// The name under which a kind is stored.
pub open spec fn spec_kind_name(kind: SecretKind) -> Seq<char> {
    match kind {
        SecretKind::DnsProviderToken => "dns_provider_token"@,
        SecretKind::DnsProviderAccessKey => "dns_provider_access_key"@,
        SecretKind::DnsProviderSecretKey => "dns_provider_secret_key"@,
        SecretKind::AcmeAccountKey => "acme_account_key"@,
        SecretKind::ManagedPrivateKey => "managed_private_key"@,
    }
}

/// The kind stored under a name; the legacy name "dns_credential" is a
/// provider token.
pub open spec fn spec_kind_from_name(name: Seq<char>) -> Option<SecretKind> {
    if name == "dns_credential"@ || name == "dns_provider_token"@ {
        Some(SecretKind::DnsProviderToken)
    } else if name == "dns_provider_access_key"@ {
        Some(SecretKind::DnsProviderAccessKey)
    } else if name == "dns_provider_secret_key"@ {
        Some(SecretKind::DnsProviderSecretKey)
    } else if name == "acme_account_key"@ {
        Some(SecretKind::AcmeAccountKey)
    } else if name == "managed_private_key"@ {
        Some(SecretKind::ManagedPrivateKey)
    } else {
        None
    }
}

impl SecretKind {
    /// The name under which the kind is stored.
    pub fn as_str(&self) -> (r: &'static str)
        ensures
            r@ == spec_kind_name(*self),
    {
        match self {
            SecretKind::DnsProviderToken => "dns_provider_token",
            SecretKind::DnsProviderAccessKey => "dns_provider_access_key",
            SecretKind::DnsProviderSecretKey => "dns_provider_secret_key",
            SecretKind::AcmeAccountKey => "acme_account_key",
            SecretKind::ManagedPrivateKey => "managed_private_key",
        }
    }

    /// The kind stored under a name; an unknown name is an error.
    pub fn from_stored(name: &str) -> (r: Result<SecretKind, String>)
        ensures
            r is Ok <==> spec_kind_from_name(name@) is Some,
            r matches Ok(k) ==> spec_kind_from_name(name@) == Some(k),
            r matches Err(m) ==> m@ == "unknown secret kind: "@ + name@,
    {
        if str_eq(name, "dns_credential") || str_eq(name, "dns_provider_token") {
            Ok(SecretKind::DnsProviderToken)
        } else if str_eq(name, "dns_provider_access_key") {
            Ok(SecretKind::DnsProviderAccessKey)
        } else if str_eq(name, "dns_provider_secret_key") {
            Ok(SecretKind::DnsProviderSecretKey)
        } else if str_eq(name, "acme_account_key") {
            Ok(SecretKind::AcmeAccountKey)
        } else if str_eq(name, "managed_private_key") {
            Ok(SecretKind::ManagedPrivateKey)
        } else {
            Err(cat("unknown secret kind: ", name))
        }
    }
}

/// Every kind reads back from the name it is stored under.
pub proof fn lemma_kind_name_round_trip(kind: SecretKind)
    ensures
        spec_kind_from_name(spec_kind_name(kind)) == Some(kind),
{
    reveal_strlit("dns_credential");
    reveal_strlit("dns_provider_token");
    reveal_strlit("dns_provider_access_key");
    reveal_strlit("dns_provider_secret_key");
    reveal_strlit("acme_account_key");
    reveal_strlit("managed_private_key");
    let n = spec_kind_name(kind);
    match kind {
        SecretKind::DnsProviderToken => {},
        SecretKind::DnsProviderAccessKey => {
            assert(n.len() != "dns_credential"@.len());
            assert(n[13] != "dns_provider_token"@[13]);
        },
        SecretKind::DnsProviderSecretKey => {
            assert(n.len() != "dns_credential"@.len());
            assert(n[13] != "dns_provider_token"@[13]);
            assert(n[13] != "dns_provider_access_key"@[13]);
        },
        SecretKind::AcmeAccountKey => {
            assert(n.len() != "dns_credential"@.len());
            assert(n[0] != "dns_provider_token"@[0]);
            assert(n[0] != "dns_provider_access_key"@[0]);
            assert(n[0] != "dns_provider_secret_key"@[0]);
        },
        SecretKind::ManagedPrivateKey => {
            assert(n.len() != "dns_credential"@.len());
            assert(n[0] != "dns_provider_token"@[0]);
            assert(n[0] != "dns_provider_access_key"@[0]);
            assert(n[0] != "dns_provider_secret_key"@[0]);
            assert(n[0] != "acme_account_key"@[0]);
        },
    }
}

// ---------------------------------------------------------------------------
// Errors
// ---------------------------------------------------------------------------

/// Errors of the secret storage backends.
#[derive(Debug, Clone)]
pub enum SecretStoreError {
    NotFound(String),
    Unavailable(String),
    Store(String),
    Locked(String),
    MasterKeyMismatch,
}

pub open spec fn spec_store_error_message(e: SecretStoreError) -> Seq<char> {
    match e {
        SecretStoreError::NotFound(m) => "secret not found: "@ + m@,
        SecretStoreError::Unavailable(m) => "secret store unavailable: "@ + m@,
        SecretStoreError::Store(m) => "secret store error: "@ + m@,
        SecretStoreError::Locked(m) => "secret vault is locked: "@ + m@,
        SecretStoreError::MasterKeyMismatch => "master key mismatch - stored data was encrypted with a different key. This usually happens when switching storage methods. Clear all stored data and start fresh."@,
    }
}

impl SecretStoreError {
    /// The text that the error displays.
    pub fn message(&self) -> (m: String)
        ensures
            m@ == spec_store_error_message(*self),
    {
        match self {
            SecretStoreError::NotFound(m) => cat("secret not found: ", m.as_str()),
            SecretStoreError::Unavailable(m) => cat("secret store unavailable: ", m.as_str()),
            SecretStoreError::Store(m) => cat("secret store error: ", m.as_str()),
            SecretStoreError::Locked(m) => cat("secret vault is locked: ", m.as_str()),
            SecretStoreError::MasterKeyMismatch => "master key mismatch - stored data was encrypted with a different key. This usually happens when switching storage methods. Clear all stored data and start fresh.".to_string(),
        }
    }
}

/// Errors of the secret manager.
#[derive(Debug, Clone)]
pub enum SecretError {
    NotFound(String),
    Unavailable(String),
    Store(String),
    Metadata(String),
    InvalidReference(String),
    Locked(String),
}

pub open spec fn spec_secret_error_message(e: SecretError) -> Seq<char> {
    match e {
        SecretError::NotFound(m) => "secret not found: "@ + m@,
        SecretError::Unavailable(m) => "secret store unavailable: "@ + m@,
        SecretError::Store(m) => "secret storage error: "@ + m@,
        SecretError::Metadata(m) => "secret metadata error: "@ + m@,
        SecretError::InvalidReference(m) => "invalid secret reference: "@ + m@,
        SecretError::Locked(m) => "secret vault is locked: "@ + m@,
    }
}

/// The manager error for a store error: each variant carries over; a master
/// key mismatch becomes a storage error with the store error's text. Where
/// `id` is given, a missing secret is reported under that id.
pub open spec fn spec_from_store_error(e: SecretStoreError, id: Option<Seq<char>>) -> SecretError {
    match e {
        SecretStoreError::NotFound(m) => SecretError::NotFound(
            match id {
                Some(i) => string_from(i),
                None => m,
            },
        ),
        SecretStoreError::Unavailable(m) => SecretError::Unavailable(m),
        SecretStoreError::Store(m) => SecretError::Store(m),
        SecretStoreError::Locked(m) => SecretError::Locked(m),
        SecretStoreError::MasterKeyMismatch => SecretError::Store(
            string_from(spec_store_error_message(e)),
        ),
    }
}

/// Some `String` with the given characters.
pub open spec fn string_from(s: Seq<char>) -> String {
    choose|t: String| t@ == s
}

pub open spec fn error_view(e: SecretError) -> (int, Seq<char>) {
    match e {
        SecretError::NotFound(m) => (0, m@),
        SecretError::Unavailable(m) => (1, m@),
        SecretError::Store(m) => (2, m@),
        SecretError::Metadata(m) => (3, m@),
        SecretError::InvalidReference(m) => (4, m@),
        SecretError::Locked(m) => (5, m@),
    }
}

proof fn lemma_string_from(s: Seq<char>, t: String)
    requires
        t@ == s,
    ensures
        string_from(s)@ == s,
{
}

impl SecretError {
    /// The text that the error displays.
    pub fn message(&self) -> (m: String)
        ensures
            m@ == spec_secret_error_message(*self),
    {
        match self {
            SecretError::NotFound(m) => cat("secret not found: ", m.as_str()),
            SecretError::Unavailable(m) => cat("secret store unavailable: ", m.as_str()),
            SecretError::Store(m) => cat("secret storage error: ", m.as_str()),
            SecretError::Metadata(m) => cat("secret metadata error: ", m.as_str()),
            SecretError::InvalidReference(m) => cat("invalid secret reference: ", m.as_str()),
            SecretError::Locked(m) => cat("secret vault is locked: ", m.as_str()),
        }
    }

    /// The manager error for a store error (see `spec_from_store_error`).
    pub fn from_store_error(e: SecretStoreError) -> (r: SecretError)
        ensures
            error_view(r) == error_view(spec_from_store_error(e, None)),
    {
        match e {
            SecretStoreError::NotFound(m) => SecretError::NotFound(m),
            SecretStoreError::Unavailable(m) => SecretError::Unavailable(m),
            SecretStoreError::Store(m) => SecretError::Store(m),
            SecretStoreError::Locked(m) => SecretError::Locked(m),
            SecretStoreError::MasterKeyMismatch => {
                let t = e.message();
                proof {
                    lemma_string_from(spec_store_error_message(e), t);
                }
                SecretError::Store(t)
            },
        }
    }

    /// The manager error for a store error met while acting on secret `id`.
    pub fn from_store_error_for(e: SecretStoreError, id: &str) -> (r: SecretError)
        ensures
            error_view(r) == error_view(spec_from_store_error(e, Some(id@))),
    {
        match e {
            SecretStoreError::NotFound(_) => {
                let s = id.to_string();
                proof {
                    lemma_string_from(id@, s);
                }
                SecretError::NotFound(s)
            },
            _ => SecretError::from_store_error(e),
        }
    }
}

// ---------------------------------------------------------------------------
// References
// ---------------------------------------------------------------------------

/// A secret reference is accepted when it starts with the manager's prefix.
pub fn ensure_prefix(prefix: &str, id: &str) -> (r: Result<(), SecretError>)
    ensures
        r is Ok <==> starts_with(id@, prefix@),
        r matches Err(e) ==> error_view(e) == (4int, "expected prefix "@ + prefix@),
{
    let v = chars_of(id);
    let p = chars_of(prefix);
    if starts_with_chars(&v, &p) {
        Ok(())
    } else {
        Err(SecretError::InvalidReference(cat("expected prefix ", prefix)))
    }
}

/// A new secret reference: the prefix followed by a fresh identifier.
pub fn secret_ref(prefix: &str, unique: &str) -> (r: String)
    ensures
        r@ == prefix@ + unique@,
{
    cat(prefix, unique)
}

// ---------------------------------------------------------------------------
// The vault
// ---------------------------------------------------------------------------

/// Holds the master key while unlocked.
pub struct MasterKeyVault {
    cached: Option<Vec<u8>>,
}

impl View for MasterKeyVault {
    type V = Option<Seq<u8>>;

    closed spec fn view(&self) -> Option<Seq<u8>> {
        match self.cached {
            Some(k) => Some(k@),
            None => None,
        }
    }
}

impl MasterKeyVault {
    /// A locked vault.
    pub fn new() -> (v: Self)
        ensures
            v@ is None,
    {
        MasterKeyVault { cached: None }
    }

    pub fn is_unlocked(&self) -> (b: bool)
        ensures
            b == self@ is Some,
    {
        self.cached.is_some()
    }

    /// Unlocking fetches the key from the key store only when the vault is
    /// locked.
    pub fn needs_key(&self) -> (b: bool)
        ensures
            b == self@ is None,
    {
        self.cached.is_none()
    }

    /// Keeps the key fetched from the key store; the vault is then unlocked.
    pub fn unlock_with(&mut self, key: Vec<u8>)
        ensures
            final(self)@ == Some(key@),
    {
        self.cached = Some(key);
    }

    /// Forgets the key.
    pub fn lock(&mut self)
        ensures
            final(self)@ is None,
    {
        self.cached = None;
    }

    /// The key, or `Locked` when the vault is locked.
    pub fn with_key(&self) -> (r: Result<&Vec<u8>, SecretStoreError>)
        ensures
            self@ matches Some(k) ==> (r matches Ok(key) && key@ == k),
            self@ is None ==> (r matches Err(SecretStoreError::Locked(m)) && m@ == "vault is locked"@),
    {
        match &self.cached {
            Some(k) => Ok(k),
            None => Err(SecretStoreError::Locked("vault is locked".to_string())),
        }
    }
}

// ---------------------------------------------------------------------------
// Sealing with AES-256-GCM
// ---------------------------------------------------------------------------

/// The length of an AES-GCM nonce.
pub open spec fn nonce_len() -> nat {
    12
}

/// What AES-256-GCM encryption (with no associated data) returns for a
/// key, nonce and plaintext: the ciphertext followed by the tag.
pub uninterp spec fn aes256gcm_seal(key: Seq<u8>, nonce: Seq<u8>, plaintext: Seq<u8>) -> Seq<u8>;

/// What AES-256-GCM decryption returns for a key, nonce and sealed text:
/// `None` where the tag does not check.
pub uninterp spec fn aes256gcm_open(key: Seq<u8>, nonce: Seq<u8>, sealed: Seq<u8>) -> Option<Seq<u8>>;

/// Why a cipher call failed.
pub enum CipherFailure {
    /// `Aes256Gcm::new_from_slice` refused the key; the crate's message.
    InvalidKey(String),
    /// Encryption or decryption failed.
    Rejected,
}

/// `Aes256Gcm::new_from_slice(key)` then `encrypt(nonce, plaintext)`. The key
/// is refused exactly when it is not 32 bytes; with a 32-byte key and a
/// plaintext of at most 2^36 bytes the result is the named ciphertext, which
/// is 16 bytes longer and decrypts back to the plaintext.
#[verifier::external_body]
fn aes_encrypt(key: &[u8], nonce: &[u8], plaintext: &[u8]) -> (r: Result<Vec<u8>, CipherFailure>)
    requires
        nonce@.len() == nonce_len(),
    ensures
        r matches Err(CipherFailure::InvalidKey(_)) <==> key@.len() != 32,
        key@.len() == 32 && plaintext@.len() <= 0x10_0000_0000 ==> r is Ok,
        r matches Ok(c) ==> c@ == aes256gcm_seal(key@, nonce@, plaintext@),
        r matches Ok(c) ==> c@.len() == plaintext@.len() + 16,
        r matches Ok(c) ==> aes256gcm_open(key@, nonce@, c@) == Some(plaintext@),
{
    let cipher = match aes_gcm::Aes256Gcm::new_from_slice(key) {
        Ok(c) => c,
        Err(err) => return Err(CipherFailure::InvalidKey(err.to_string())),
    };
    cipher.encrypt(aes_gcm::Nonce::from_slice(nonce), plaintext).map_err(|_| CipherFailure::Rejected)
}

/// `Aes256Gcm::new_from_slice(key)` then `decrypt(nonce, sealed)`. The key is
/// refused exactly when it is not 32 bytes; otherwise the result is the
/// named decryption.
#[verifier::external_body]
fn aes_decrypt(key: &[u8], nonce: &[u8], sealed: &[u8]) -> (r: Result<Vec<u8>, CipherFailure>)
    requires
        nonce@.len() == nonce_len(),
    ensures
        r matches Err(CipherFailure::InvalidKey(_)) <==> key@.len() != 32,
        key@.len() == 32 ==> (r is Ok <==> aes256gcm_open(key@, nonce@, sealed@) is Some),
        r matches Ok(p) ==> aes256gcm_open(key@, nonce@, sealed@) == Some(p@),
{
    let cipher = match aes_gcm::Aes256Gcm::new_from_slice(key) {
        Ok(c) => c,
        Err(err) => return Err(CipherFailure::InvalidKey(err.to_string())),
    };
    cipher.decrypt(aes_gcm::Nonce::from_slice(nonce), sealed).map_err(|_| CipherFailure::Rejected)
}

/// The stored form of a secret: the nonce, then the sealed value.
pub open spec fn sealed_payload(key: Seq<u8>, nonce: Seq<u8>, value: Seq<u8>) -> Seq<u8> {
    nonce + aes256gcm_seal(key, nonce, value)
}

/// `payload` is `value` sealed under `key` with `nonce`: the nonce followed by
/// the ciphertext, which decrypts back to the value.
pub open spec fn sealed_by(key: Seq<u8>, nonce: Seq<u8>, value: Seq<u8>, payload: Seq<u8>) -> bool {
    &&& payload == sealed_payload(key, nonce, value)
    &&& aes256gcm_open(key, nonce, aes256gcm_seal(key, nonce, value)) == Some(value)
}

/// What opening a stored payload under the vault's key gives: the decrypted
/// value, or `None` where opening fails.
pub open spec fn opened_value(key: Option<Seq<u8>>, stored: Option<Seq<u8>>) -> Option<Seq<u8>> {
    match (key, stored) {
        (Some(k), Some(p)) => if p.len() >= nonce_len() && k.len() == 32 {
            aes256gcm_open(k, p.take(12), p.skip(12))
        } else {
            None
        },
        _ => None,
    }
}

pub open spec fn opt_bytes(o: Option<Vec<u8>>) -> Option<Seq<u8>> {
    match o {
        Some(b) => Some(b@),
        None => None,
    }
}

/// A secret sealed under a key and nonce opens, under the same key, to the
/// value that was sealed.
pub proof fn lemma_sealed_secret_opens(key: Seq<u8>, nonce: Seq<u8>, value: Seq<u8>, payload: Seq<u8>)
    requires
        key.len() == 32,
        nonce.len() == nonce_len(),
        sealed_by(key, nonce, value, payload),
    ensures
        opened_value(Some(key), Some(payload)) == Some(value),
{
    assert(payload.take(12) =~= nonce);
    assert(payload.skip(12) =~= aes256gcm_seal(key, nonce, value));
}

/// Seals a secret under the vault's key with the given fresh nonce.
pub fn seal_secret(vault: &MasterKeyVault, nonce: &[u8], value: &[u8]) -> (r: Result<
    Vec<u8>,
    SecretStoreError,
>)
    requires
        nonce@.len() == nonce_len(),
    ensures
        vault@ is None ==> (r matches Err(SecretStoreError::Locked(m)) && m@ == "vault is locked"@),
        vault@ matches Some(k) && k.len() != 32 ==> r matches Err(SecretStoreError::Store(_)),
        vault@ matches Some(k) && k.len() == 32 && value@.len() <= 0x10_0000_0000 ==> r is Ok,
        r is Err ==> !(r matches Err(SecretStoreError::Locked(_))) || vault@ is None,
        r matches Ok(p) ==> (vault@ matches Some(k) && sealed_by(k, nonce@, value@, p@)
            && aes256gcm_open(k, p@.take(12), p@.skip(12)) == Some(value@)),
{
    let key = match vault.with_key() {
        Ok(k) => k,
        Err(e) => {
            return Err(e);
        },
    };
    match aes_encrypt(key.as_slice(), nonce, value) {
        Ok(c) => {
            let mut payload = slice_bytes(nonce);
            let mut i: usize = 0;
            let ghost start = payload@;
            while i < c.len()
                invariant
                    i <= c.len(),
                    start == nonce@,
                    payload@ == start + c@.take(i as int),
                decreases c.len() - i,
            {
                payload.push(c[i]);
                i = i + 1;
                assert(payload@ =~= start + c@.take(i as int));
            }
            assert(c@.take(c.len() as int) =~= c@);
            assert(payload@.take(12) =~= nonce@);
            assert(payload@.skip(12) =~= c@);
            Ok(payload)
        },
        Err(CipherFailure::InvalidKey(m)) => Err(SecretStoreError::Store(m)),
        Err(CipherFailure::Rejected) => Err(SecretStoreError::Store("aead::Error".to_string())),
    }
}

/// A copy of a byte slice.
fn slice_bytes(v: &[u8]) -> (r: Vec<u8>)
    ensures
        r@ == v@,
{
    let mut out: Vec<u8> = Vec::new();
    let mut i: usize = 0;
    while i < v.len()
        invariant
            i <= v.len(),
            out@ == v@.take(i as int),
        decreases v.len() - i,
    {
        out.push(v[i]);
        i = i + 1;
        assert(out@ =~= v@.take(i as int));
    }
    assert(v@.take(v.len() as int) =~= v@);
    out
}

/// Opens a stored secret: no stored text is `NotFound`, a text shorter than a
/// nonce is a storage error, a locked vault is `Locked`, a text that does not
/// decrypt under the key is a master key mismatch.
pub fn open_secret(vault: &MasterKeyVault, id: &str, stored: Option<Vec<u8>>) -> (r: Result<
    Vec<u8>,
    SecretStoreError,
>)
    ensures
        stored is None ==> (r matches Err(SecretStoreError::NotFound(m)) && m@ == id@),
        stored matches Some(p) ==> (p@.len() < 12 ==> (r matches Err(SecretStoreError::Store(m))
            && m@ == "stored ciphertext missing nonce"@)),
        stored matches Some(p) ==> (p@.len() >= 12 && vault@ is None ==> (r matches Err(
            SecretStoreError::Locked(m),
        ) && m@ == "vault is locked"@)),
        stored matches Some(p) ==> (p@.len() >= 12 ==> (vault@ matches Some(k) ==> ({
            let opened = aes256gcm_open(k, p@.take(12), p@.skip(12));
            &&& (k.len() != 32 ==> r matches Err(SecretStoreError::Store(_)))
            &&& (k.len() == 32 && opened is Some ==> (r matches Ok(v) && Some(v@) == opened))
            &&& (k.len() == 32 && opened is None ==> r matches Err(SecretStoreError::MasterKeyMismatch))
        }))),
        r is Ok <==> opened_value(vault@, opt_bytes(stored)) is Some,
        r matches Ok(v) ==> opened_value(vault@, opt_bytes(stored)) == Some(v@),
{
    let payload = match stored {
        Some(p) => p,
        None => {
            return Err(SecretStoreError::NotFound(id.to_string()));
        },
    };
    if payload.len() < 12 {
        return Err(SecretStoreError::Store("stored ciphertext missing nonce".to_string()));
    }
    let key = match vault.with_key() {
        Ok(k) => k,
        Err(e) => {
            return Err(e);
        },
    };
    let nonce = slice_part(&payload, 0, 12);
    let data = slice_part(&payload, 12, payload.len());
    assert(nonce@ =~= payload@.take(12));
    assert(data@ =~= payload@.skip(12));
    match aes_decrypt(key.as_slice(), nonce.as_slice(), data.as_slice()) {
        Ok(v) => Ok(v),
        Err(CipherFailure::InvalidKey(m)) => Err(SecretStoreError::Store(m)),
        Err(CipherFailure::Rejected) => Err(SecretStoreError::MasterKeyMismatch),
    }
}

fn slice_part(v: &Vec<u8>, from: usize, to: usize) -> (r: Vec<u8>)
    requires
        from <= to <= v@.len(),
    ensures
        r@ == v@.subrange(from as int, to as int),
{
    let mut out: Vec<u8> = Vec::new();
    let mut i: usize = from;
    while i < to
        invariant
            from <= i <= to,
            to <= v@.len(),
            out@ == v@.subrange(from as int, i as int),
        decreases to - i,
    {
        out.push(v[i]);
        i = i + 1;
        assert(out@ =~= v@.subrange(from as int, i as int));
    }
    out
}


// ---------------------------------------------------------------------------
// The master key in the OS keyring
// ---------------------------------------------------------------------------

/// The store error for a keyring failure on entry `id`, judged by the
/// lower-cased message: a missing entry is `NotFound`, a missing backend
/// `Unavailable`, anything else a storage error with the message.
pub open spec fn spec_keyring_error(id: Seq<char>, message: Seq<char>) -> (int, Seq<char>) {
    let lower = crate::text::unicode_lowercase(message);
    if crate::text::contains(lower, "no entry"@) || crate::text::contains(lower, "no password"@)
        || crate::text::contains(lower, "no matching entry"@) || crate::text::contains(
        lower,
        "not found"@,
    ) {
        (0, id)
    } else if crate::text::contains(lower, "no backend"@) || crate::text::contains(
        lower,
        "unsupported"@,
    ) {
        (1, message)
    } else {
        (2, message)
    }
}

pub open spec fn store_error_view(e: SecretStoreError) -> (int, Seq<char>) {
    match e {
        SecretStoreError::NotFound(m) => (0, m@),
        SecretStoreError::Unavailable(m) => (1, m@),
        SecretStoreError::Store(m) => (2, m@),
        SecretStoreError::Locked(m) => (3, m@),
        SecretStoreError::MasterKeyMismatch => (4, Seq::empty()),
    }
}

/// The store error for a keyring failure on entry `id` with this message.
pub fn map_keyring_error(id: &str, message: &str) -> (r: SecretStoreError)
    ensures
        store_error_view(r) == spec_keyring_error(id@, message@),
{
    let lower = crate::text::to_lowercase(message);
    let l = lower.as_str();
    if crate::text::str_contains(l, "no entry") || crate::text::str_contains(l, "no password")
        || crate::text::str_contains(l, "no matching entry") || crate::text::str_contains(
        l,
        "not found",
    ) {
        SecretStoreError::NotFound(id.to_string())
    } else if crate::text::str_contains(l, "no backend") || crate::text::str_contains(l, "unsupported") {
        SecretStoreError::Unavailable(message.to_string())
    } else {
        SecretStoreError::Store(message.to_string())
    }
}

/// What base64 (standard alphabet, padded) encoding writes for some bytes.
pub uninterp spec fn base64_text_of(bytes: Seq<u8>) -> Seq<char>;

/// What base64 (standard alphabet, padded) decoding reads from a text:
/// `None` where it reports an error.
pub uninterp spec fn base64_bytes_of(text: Seq<char>) -> Option<Seq<u8>>;

/// Encodes with `base64::engine::general_purpose::STANDARD`; decoding the
/// text gives the bytes back.
#[verifier::external_body]
fn base64_encode(bytes: &[u8]) -> (r: String)
    ensures
        r@ == base64_text_of(bytes@),
        base64_bytes_of(r@) == Some(bytes@),
{
    base64::engine::general_purpose::STANDARD.encode(bytes)
}

/// Decodes with `base64::engine::general_purpose::STANDARD`; the error
/// message is the crate's own.
#[verifier::external_body]
fn base64_decode(text: &str) -> (r: Result<Vec<u8>, String>)
    ensures
        r is Ok <==> base64_bytes_of(text@) is Some,
        r matches Ok(b) ==> Some(b@) == base64_bytes_of(text@),
{
    base64::engine::general_purpose::STANDARD.decode(text.as_bytes()).map_err(|err| err.to_string())
}

/// The text under which a master key is kept in the keyring.
pub fn encode_master_key(key: &[u8]) -> (r: String)
    ensures
        r@ == base64_text_of(key@),
        base64_bytes_of(r@) == Some(key@),
{
    base64_encode(key)
}

/// The master key kept in the keyring under a text.
pub fn decode_master_key(text: &str) -> (r: Result<Vec<u8>, SecretStoreError>)
    ensures
        r is Ok <==> base64_bytes_of(text@) is Some,
        r matches Ok(k) ==> Some(k@) == base64_bytes_of(text@),
        r matches Err(e) ==> e matches SecretStoreError::Store(m) && exists|t: Seq<char>| m@
            == "failed to decode master key: "@ + t,
{
    match base64_decode(text) {
        Ok(k) => Ok(k),
        Err(e) => Err(SecretStoreError::Store(cat("failed to decode master key: ", e.as_str()))),
    }
}

} // verus!
