//! Stored provider credentials: session caches, the passphrase retry protocol,
//! and the choice of decryption method.

use vstd::prelude::*;
use crate::config::{clone_opt, owned};
use crate::models::StoredCredential;
use crate::paths::{expand_tilde_in, expand_tilde_with, opt_view, path_exists};
use crate::text::{
    chars_of, decimal, ends_with, has_suffix, push_decimal, push_str, slice_of, str_eq,
    string_from, trim, trim_chars,
};
use std::io::Read;
use std::io::Write;

verus! {

/// Number of passphrase attempts before decryption gives up.
pub const MAX_PASSPHRASE_ATTEMPTS: u64 = 3;

// ---------------------------------------------------------------------------
// Session caches
// ---------------------------------------------------------------------------

/// Values remembered for the rest of one invocation: the credential passphrase,
/// the SSH private key path, the SSH key's own passphrase, and every credential
/// already decrypted, keyed by (provider id, credential key).
pub struct SessionCache {
    passphrase: Option<String>,
    ssh_key_path: Option<String>,
    ssh_key_passphrase: Option<String>,
    decrypted: Vec<(String, String, String)>,
}

/// What a session cache holds.
pub struct SessionCacheView {
    pub passphrase: Option<Seq<char>>,
    pub ssh_key_path: Option<Seq<char>>,
    pub ssh_key_passphrase: Option<Seq<char>>,
    pub decrypted: Map<(Seq<char>, Seq<char>), Seq<char>>,
}

/// The map of decrypted values held by a list of entries.
pub open spec fn entries_map(s: Seq<(String, String, String)>) -> Map<(Seq<char>, Seq<char>), Seq<char>>
    decreases s.len(),
{
    if s.len() == 0 {
        Map::empty()
    } else {
        entries_map(s.drop_last()).insert((s.last().0@, s.last().1@), s.last().2@)
    }
}

/// No two entries share a key.
pub open spec fn keys_distinct(s: Seq<(String, String, String)>) -> bool {
    forall|i: int, j: int|
        0 <= i < s.len() && 0 <= j < s.len() && i != j ==> ((#[trigger] s[i]).0@, s[i].1@) != (
            (#[trigger] s[j]).0@,
            s[j].1@,
        )
}

impl View for SessionCache {
    type V = SessionCacheView;

    closed spec fn view(&self) -> SessionCacheView {
        SessionCacheView {
            passphrase: opt_view(self.passphrase),
            ssh_key_path: opt_view(self.ssh_key_path),
            ssh_key_passphrase: opt_view(self.ssh_key_passphrase),
            decrypted: entries_map(self.decrypted@),
        }
    }
}

proof fn lemma_entries_map_lookup(s: Seq<(String, String, String)>, i: int)
    requires
        keys_distinct(s),
        0 <= i < s.len(),
    ensures
        entries_map(s).contains_key((s[i].0@, s[i].1@)),
        entries_map(s)[(s[i].0@, s[i].1@)] == s[i].2@,
    decreases s.len(),
{
    if i < s.len() - 1 {
        let t = s.drop_last();
        assert(keys_distinct(t)) by {
            assert forall|a: int, b: int|
                0 <= a < t.len() && 0 <= b < t.len() && a != b implies ((#[trigger] t[a]).0@, t[a].1@)
                != ((#[trigger] t[b]).0@, t[b].1@) by {
                assert(t[a] == s[a] && t[b] == s[b]);
            }
        }
        assert(t[i] == s[i]);
        lemma_entries_map_lookup(t, i);
        assert(s.last() == s[s.len() - 1]);
    }
}

proof fn lemma_entries_map_absent(s: Seq<(String, String, String)>, k: (Seq<char>, Seq<char>))
    requires
        forall|i: int| 0 <= i < s.len() ==> ((#[trigger] s[i]).0@, s[i].1@) != k,
    ensures
        !entries_map(s).contains_key(k),
    decreases s.len(),
{
    if s.len() > 0 {
        let t = s.drop_last();
        assert forall|i: int| 0 <= i < t.len() implies ((#[trigger] t[i]).0@, t[i].1@) != k by {
            assert(t[i] == s[i]);
        }
        lemma_entries_map_absent(t, k);
        assert(s.last() == s[s.len() - 1]);
    }
}

proof fn lemma_entries_map_update(s: Seq<(String, String, String)>, i: int, e: (String, String, String))
    requires
        keys_distinct(s),
        0 <= i < s.len(),
        (e.0@, e.1@) == (s[i].0@, s[i].1@),
    ensures
        keys_distinct(s.update(i, e)),
        entries_map(s.update(i, e)) == entries_map(s).insert((e.0@, e.1@), e.2@),
    decreases s.len(),
{
    let u = s.update(i, e);
    assert(keys_distinct(u)) by {
        assert forall|a: int, b: int|
            0 <= a < u.len() && 0 <= b < u.len() && a != b implies ((#[trigger] u[a]).0@, u[a].1@)
            != ((#[trigger] u[b]).0@, u[b].1@) by {
            assert(s[a] == u[a] || a == i);
            assert(s[b] == u[b] || b == i);
        }
    }
    let t = s.drop_last();
    if i == s.len() - 1 {
        assert(u.drop_last() =~= t);
        assert(forall|j: int| 0 <= j < t.len() ==> ((#[trigger] t[j]).0@, t[j].1@) != (e.0@, e.1@))
            by {
            assert forall|j: int| 0 <= j < t.len() implies ((#[trigger] t[j]).0@, t[j].1@) != (
                e.0@,
                e.1@,
            ) by {
                assert(t[j] == s[j]);
            }
        }
        assert(entries_map(u) =~= entries_map(s).insert((e.0@, e.1@), e.2@));
    } else {
        assert(keys_distinct(t)) by {
            assert forall|a: int, b: int|
                0 <= a < t.len() && 0 <= b < t.len() && a != b implies ((#[trigger] t[a]).0@,
                t[a].1@) != ((#[trigger] t[b]).0@, t[b].1@) by {
                assert(t[a] == s[a] && t[b] == s[b]);
            }
        }
        lemma_entries_map_update(t, i, e);
        assert(u.drop_last() =~= t.update(i, e));
        assert(u.last() == s.last());
        assert((s.last().0@, s.last().1@) != (e.0@, e.1@)) by {
            assert(s.last() == s[s.len() - 1]);
        }
        assert(entries_map(u) =~= entries_map(s).insert((e.0@, e.1@), e.2@));
    }
}

impl SessionCache {
    #[verifier::type_invariant]
    spec fn distinct_keys(self) -> bool {
        keys_distinct(self.decrypted@)
    }

    /// An empty cache.
    pub fn new() -> (r: SessionCache)
        ensures
            r@.passphrase is None,
            r@.ssh_key_path is None,
            r@.ssh_key_passphrase is None,
            r@.decrypted == Map::<(Seq<char>, Seq<char>), Seq<char>>::empty(),
    {
        SessionCache {
            passphrase: None,
            ssh_key_path: None,
            ssh_key_passphrase: None,
            decrypted: Vec::new(),
        }
    }

    /// Remember the credential passphrase.
    pub fn cache_passphrase(&mut self, passphrase: &str)
        ensures
            final(self)@ == (SessionCacheView { passphrase: Some(passphrase@), ..old(self)@ }),
    {
        proof {
            use_type_invariant(&*self);
        }
        self.passphrase = Some(owned(passphrase));
    }

    /// The remembered credential passphrase.
    pub fn get_cached_passphrase(&self) -> (r: Option<String>)
        ensures
            opt_view(r) == self@.passphrase,
    {
        clone_opt(&self.passphrase)
    }

    /// Forget the credential passphrase (after it failed to decrypt).
    pub fn clear_passphrase_cache(&mut self)
        ensures
            final(self)@ == (SessionCacheView { passphrase: None, ..old(self)@ }),
    {
        proof {
            use_type_invariant(&*self);
        }
        self.passphrase = None;
    }

    /// Remember the SSH private key path.
    pub fn cache_ssh_key_path(&mut self, path: &str)
        ensures
            final(self)@ == (SessionCacheView { ssh_key_path: Some(path@), ..old(self)@ }),
    {
        proof {
            use_type_invariant(&*self);
        }
        self.ssh_key_path = Some(owned(path));
    }

    /// The remembered SSH private key path.
    pub fn get_cached_ssh_key_path(&self) -> (r: Option<String>)
        ensures
            opt_view(r) == self@.ssh_key_path,
    {
        clone_opt(&self.ssh_key_path)
    }

    /// Remember the passphrase of the SSH private key.
    pub fn cache_ssh_key_passphrase(&mut self, passphrase: &str)
        ensures
            final(self)@ == (SessionCacheView { ssh_key_passphrase: Some(passphrase@), ..old(self)@ }),
    {
        proof {
            use_type_invariant(&*self);
        }
        self.ssh_key_passphrase = Some(owned(passphrase));
    }

    /// The remembered passphrase of the SSH private key.
    pub fn get_cached_ssh_key_passphrase(&self) -> (r: Option<String>)
        ensures
            opt_view(r) == self@.ssh_key_passphrase,
    {
        clone_opt(&self.ssh_key_passphrase)
    }

    /// Forget the SSH private key's passphrase (after it failed).
    pub fn clear_ssh_key_passphrase_cache(&mut self)
        ensures
            final(self)@ == (SessionCacheView { ssh_key_passphrase: None, ..old(self)@ }),
    {
        proof {
            use_type_invariant(&*self);
        }
        self.ssh_key_passphrase = None;
    }

    /// Position of the entry for (provider_id, credential_key).
    fn position(&self, provider_id: &str, credential_key: &str) -> (r: Option<usize>)
        ensures
            match r {
                Some(i) => i < self.decrypted@.len() && (self.decrypted@[i as int].0@,
                    self.decrypted@[i as int].1@) == (provider_id@, credential_key@),
                None => forall|i: int|
                    0 <= i < self.decrypted@.len() ==> ((#[trigger] self.decrypted@[i]).0@,
                        self.decrypted@[i].1@) != (provider_id@, credential_key@),
            },
    {
        let mut i: usize = 0;
        while i < self.decrypted.len()
            invariant
                i <= self.decrypted@.len(),
                forall|j: int|
                    0 <= j < i ==> ((#[trigger] self.decrypted@[j]).0@, self.decrypted@[j].1@) != (
                        provider_id@,
                        credential_key@,
                    ),
            decreases self.decrypted@.len() - i,
        {
            let e = &self.decrypted[i];
            if str_eq(e.0.as_str(), provider_id) && str_eq(e.1.as_str(), credential_key) {
                return Some(i);
            }
            i = i + 1;
        }
        None
    }

    /// Remember a decrypted credential value.
    pub fn cache_decrypted_value(&mut self, provider_id: &str, credential_key: &str, value: &str)
        ensures
            final(self)@ == (SessionCacheView {
                decrypted: old(self)@.decrypted.insert((provider_id@, credential_key@), value@),
                ..old(self)@
            }),
    {
        proof {
            use_type_invariant(&*self);
        }
        let e = (owned(provider_id), owned(credential_key), owned(value));
        match self.position(provider_id, credential_key) {
            Some(i) => {
                proof {
                    lemma_entries_map_update(self.decrypted@, i as int, e);
                }
                let mut d = Vec::new();
                std::mem::swap(&mut d, &mut self.decrypted);
                d.set(i, e);
                self.decrypted = d;
            },
            None => {
                let ghost s = self.decrypted@;
                let mut d = Vec::new();
                std::mem::swap(&mut d, &mut self.decrypted);
                d.push(e);
                assert(d@.drop_last() =~= s);
                assert(keys_distinct(d@)) by {
                    assert forall|a: int, b: int|
                        0 <= a < d@.len() && 0 <= b < d@.len() && a != b implies ((
                        #[trigger] d@[a]).0@, d@[a].1@) != ((#[trigger] d@[b]).0@, d@[b].1@) by {
                        if a < s.len() {
                            assert(d@[a] == s[a]);
                        }
                        if b < s.len() {
                            assert(d@[b] == s[b]);
                        }
                    }
                }
                self.decrypted = d;
            },
        }
    }

    /// The remembered decrypted value for (provider_id, credential_key).
    pub fn get_cached_decrypted_value(&self, provider_id: &str, credential_key: &str) -> (r:
        Option<String>)
        ensures
            match r {
                Some(v) => self@.decrypted.contains_key((provider_id@, credential_key@))
                    && self@.decrypted[(provider_id@, credential_key@)] == v@,
                None => !self@.decrypted.contains_key((provider_id@, credential_key@)),
            },
    {
        proof {
            use_type_invariant(self);
        }
        match self.position(provider_id, credential_key) {
            Some(i) => {
                proof {
                    lemma_entries_map_lookup(self.decrypted@, i as int);
                }
                Some(self.decrypted[i].2.clone())
            },
            None => {
                proof {
                    lemma_entries_map_absent(self.decrypted@, (provider_id@, credential_key@));
                }
                None
            },
        }
    }
}

/// A value cached for a credential is what a later lookup of that credential
/// returns, and caching it leaves every other credential's entry as it was.
pub proof fn law_decrypted_cache_read_after_write(
    m: Map<(Seq<char>, Seq<char>), Seq<char>>,
    k: (Seq<char>, Seq<char>),
    v: Seq<char>,
    other: (Seq<char>, Seq<char>),
)
    requires
        other != k,
    ensures
        m.insert(k, v).contains_key(k),
        m.insert(k, v)[k] == v,
        m.insert(k, v).contains_key(other) == m.contains_key(other),
        m.contains_key(other) ==> m.insert(k, v)[other] == m[other],
{
}

// ---------------------------------------------------------------------------
// Encryption and decryption with age
// ---------------------------------------------------------------------------

/// The bytes every age file starts with: `age-encryption.org/`.
pub open spec fn age_magic() -> Seq<u8> {
    vstd::utf8::encode_utf8("age-encryption.org/"@)
}

/// The first line of an age v1 file: `age-encryption.org/v1` and a line break.
pub open spec fn age_v1_line() -> Seq<u8> {
    vstd::utf8::encode_utf8("age-encryption.org/v1\n"@)
}

/// Whether `bytes` begin with `prefix`.
pub open spec fn bytes_start_with(bytes: Seq<u8>, prefix: Seq<u8>) -> bool {
    prefix.len() <= bytes.len() && bytes.subrange(0, prefix.len() as int) == prefix
}

/// What the age file `file` holds for the passphrase `passphrase`, as the age
/// format defines it: the plaintext its scrypt stanza and payload yield under that
/// passphrase, or `None` when they yield none.
pub uninterp spec fn age_passphrase_plaintext(file: Seq<u8>, passphrase: Seq<char>) -> Option<Seq<u8>>;

/// `age` passphrase encryption (`Encryptor::with_user_passphrase`, scrypt recipient),
/// written into memory. It succeeds (the crate's source: this recipient set raises
/// no error, and writing to a `Vec` cannot fail); the file starts with the age v1
/// line and holds `data` for that passphrase. The bytes themselves are not stated:
/// the file key and the salt are random.
#[verifier::external_body]
pub fn encrypt_with_passphrase(data: &[u8], passphrase: &str) -> (r: Result<Vec<u8>, String>)
    ensures
        r is Ok,
        r matches Ok(c) ==> bytes_start_with(c@, age_v1_line()),
        r matches Ok(c) ==> age_passphrase_plaintext(c@, passphrase@) == Some(data@),
{
    let key = age::secrecy::SecretString::from(passphrase.to_string());
    let encryptor = age::Encryptor::with_user_passphrase(key);
    let mut out = Vec::new();
    let mut writer = encryptor.wrap_output(&mut out).map_err(|e| e.to_string())?;
    writer.write_all(data).map_err(|e| e.to_string())?;
    writer.finish().map_err(|e| e.to_string())?;
    Ok(out)
}

/// `age` passphrase decryption (`Decryptor::new`, then `decrypt` with an
/// `scrypt::Identity`). Input that does not start as an age file is refused when
/// its header is read; what a decryption gives is what the file holds for that
/// passphrase. Whether a decryption succeeds is not stated: besides the input, it
/// depends on a work-factor limit that the identity sets by timing this machine.
#[verifier::external_body]
pub fn decrypt_with_passphrase(ciphertext: &[u8], passphrase: &str) -> (r: Result<Vec<u8>, String>)
    ensures
        !bytes_start_with(ciphertext@, age_magic()) ==> r is Err,
        r matches Ok(b) ==> age_passphrase_plaintext(ciphertext@, passphrase@) == Some(b@),
{
    let decryptor = age::Decryptor::new(ciphertext).map_err(|e| e.to_string())?;
    let identity = age::scrypt::Identity::new(age::secrecy::SecretString::from(passphrase.to_string()));
    let mut reader = decryptor.decrypt(std::iter::once(&identity as &dyn age::Identity)).map_err(|e| e.to_string())?;
    let mut out = Vec::new();
    reader.read_to_end(&mut out).map_err(|e| e.to_string())?;
    Ok(out)
}

/// Whether age reads `text` as an SSH public key it can encrypt to
/// (`ssh::Recipient`'s `FromStr`).
pub uninterp spec fn parses_as_ssh_recipient(text: Seq<char>) -> bool;

/// What the age file `file` holds for the holder of the private key whose public
/// key is `public_key` (as text): the plaintext its stanza for that key and its
/// payload yield, or `None`.
pub uninterp spec fn age_recipient_plaintext(file: Seq<u8>, public_key: Seq<char>) -> Option<Seq<u8>>;

/// The prefix of the message when a key text is not an SSH public key.
pub open spec fn ssh_key_parse_prefix() -> Seq<char> {
    "Failed to parse SSH public key: "@
}

/// How encrypting to an SSH public key failed, as age reports it.
pub enum SshSealFailure {
    /// The text is not an SSH public key; the parse error, as `{:?}` writes it.
    BadKey(String),
    /// The encryptor refused the recipient.
    Refused,
    /// Writing the encrypted file failed; the error's text.
    Write(String),
}

/// `age` encryption to an SSH public key given as text (`ssh::Recipient` parsed
/// from the text, then `Encryptor::with_recipients`), written into memory. It
/// succeeds exactly when the text parses (the crate's source: one SSH recipient
/// raises no error, and writing to a `Vec` cannot fail); the file then starts with
/// the age v1 line and holds `data` for the holder of that key. The bytes
/// themselves are not stated: the file key is random.
#[verifier::external_body]
fn encrypt_to_ssh_recipient(data: &[u8], public_key: &str) -> (r: Result<Vec<u8>, SshSealFailure>)
    ensures
        r is Ok <==> parses_as_ssh_recipient(public_key@),
        r matches Ok(c) ==> bytes_start_with(c@, age_v1_line()),
        r matches Ok(c) ==> age_recipient_plaintext(c@, public_key@) == Some(data@),
        !parses_as_ssh_recipient(public_key@) ==> r matches Err(SshSealFailure::BadKey(_)),
{
    let recipient: age::ssh::Recipient = public_key.parse().map_err(|e| SshSealFailure::BadKey(format!("{:?}", e)))?;
    let encryptor = age::Encryptor::with_recipients(std::iter::once(&recipient as &dyn age::Recipient)).map_err(|_| SshSealFailure::Refused)?;
    let mut out = Vec::new();
    let mut writer = encryptor.wrap_output(&mut out).map_err(|e| SshSealFailure::Write(e.to_string()))?;
    writer.write_all(data).map_err(|e| SshSealFailure::Write(e.to_string()))?;
    writer.finish().map_err(|e| SshSealFailure::Write(e.to_string()))?;
    Ok(out)
}

/// Encrypt `data` to the SSH public key whose text is `key_text`; white space
/// around the key is ignored. It succeeds exactly when the trimmed text is an SSH
/// public key; the result is then an age v1 file holding `data` for that key, and
/// otherwise the message starts with `Failed to parse SSH public key: `.
pub fn encrypt_with_ssh_pubkey(data: &[u8], key_text: &str) -> (r: Result<Vec<u8>, String>)
    ensures
        r is Ok <==> parses_as_ssh_recipient(trim(key_text@)),
        r matches Ok(c) ==> bytes_start_with(c@, age_v1_line()),
        r matches Ok(c) ==> age_recipient_plaintext(c@, trim(key_text@)) == Some(data@),
        r matches Err(e) ==> crate::text::starts_with(e@, ssh_key_parse_prefix()),
{
    let key = string_from(trim_chars(chars_of(key_text).as_slice()).as_slice());
    match encrypt_to_ssh_recipient(data, key.as_str()) {
        Ok(c) => Ok(c),
        Err(SshSealFailure::BadKey(d)) => {
            let mut v = chars_of("Failed to parse SSH public key: ");
            let ghost p = v@;
            push_str(&mut v, d.as_str());
            assert(v@.subrange(0, p.len() as int) =~= p);
            Err(string_from(v.as_slice()))
        },
        Err(SshSealFailure::Refused) => Err(string_from(chars_of("Failed to create encryptor").as_slice())),
        Err(SshSealFailure::Write(m)) => Err(m),
    }
}

// ---------------------------------------------------------------------------
// SSH private keys
// ---------------------------------------------------------------------------

/// What an SSH private key file holds, as age reads it.
#[derive(Debug)]
pub enum SshKeyKind {
    /// A key age can use as it is.
    Unencrypted,
    /// A key protected by a passphrase.
    Encrypted,
    /// A key age can parse but not use; the reason, as `{:?}` writes it.
    Unsupported(String),
}

/// The abstract form of a key kind.
pub enum SshKeyKindView {
    Unencrypted,
    Encrypted,
    Unsupported(Seq<char>),
}

/// The view of a key kind.
pub open spec fn key_kind_view(k: SshKeyKind) -> SshKeyKindView {
    match k {
        SshKeyKind::Unencrypted => SshKeyKindView::Unencrypted,
        SshKeyKind::Encrypted => SshKeyKindView::Encrypted,
        SshKeyKind::Unsupported(s) => SshKeyKindView::Unsupported(s@),
    }
}

/// How age reads the SSH private key file `key` (`ssh::Identity::from_buffer`):
/// its kind, or the read error's text.
pub uninterp spec fn ssh_identity_kind(key: Seq<u8>) -> Result<SshKeyKindView, Seq<char>>;

/// `ssh::Identity::from_buffer` of age on the key file's bytes: which kind of
/// key it holds, or the read error's text.
#[verifier::external_body]
fn read_ssh_identity(key: &[u8]) -> (r: Result<SshKeyKind, String>)
    ensures
        match (r, ssh_identity_kind(key@)) {
            (Ok(k), Ok(sk)) => key_kind_view(k) == sk,
            (Err(e), Err(se)) => e@ == se,
            _ => false,
        },
{
    match age::ssh::Identity::from_buffer(key, None) {
        Ok(age::ssh::Identity::Unencrypted(_)) => Ok(SshKeyKind::Unencrypted),
        Ok(age::ssh::Identity::Encrypted(_)) => Ok(SshKeyKind::Encrypted),
        Ok(age::ssh::Identity::Unsupported(k)) => Ok(SshKeyKind::Unsupported(format!("{:?}", k))),
        Err(e) => Err(e.to_string()),
    }
}

/// The message when an SSH private key file cannot be read as a key.
pub open spec fn ssh_private_key_parse_message(e: Seq<char>) -> Seq<char> {
    "Failed to parse SSH private key: "@ + e
}

/// What kind of SSH private key the file `key` holds, or why it is not one.
pub fn ssh_private_key_kind(key: &[u8]) -> (r: Result<SshKeyKind, String>)
    ensures
        match (r, ssh_identity_kind(key@)) {
            (Ok(k), Ok(sk)) => key_kind_view(k) == sk,
            (Err(e), Err(se)) => e@ == ssh_private_key_parse_message(se),
            _ => false,
        },
{
    match read_ssh_identity(key) {
        Ok(k) => Ok(k),
        Err(e) => {
            let mut v = chars_of("Failed to parse SSH private key: ");
            push_str(&mut v, e.as_str());
            Err(string_from(v.as_slice()))
        },
    }
}

/// What the age file `file` holds for the private key in the key file `key`
/// (decrypted with its own passphrase where it is encrypted): the plaintext its
/// stanza for that key and its payload yield, or `None`.
pub uninterp spec fn age_ssh_plaintext(file: Seq<u8>, key: Seq<u8>) -> Option<Seq<u8>>;

/// `age` decryption with the SSH private key in `key`: the key is read with
/// `ssh::Identity::from_buffer` and, where it is encrypted and a passphrase is
/// given, opened with `EncryptedKey::decrypt`; then `Decryptor::new` and `decrypt`.
/// Input that does not start as an age file is refused; what a decryption gives is
/// what the file holds for that key. Whether it succeeds is not stated beyond that
/// (a wrong key, or a wrong or missing key passphrase, fails).
#[verifier::external_body]
fn decrypt_with_ssh_identity(ciphertext: &[u8], key: &[u8], key_passphrase: Option<&str>) -> (r: Result<
    Vec<u8>,
    String,
>)
    ensures
        !bytes_start_with(ciphertext@, age_magic()) ==> r is Err,
        r matches Ok(b) ==> age_ssh_plaintext(ciphertext@, key@) == Some(b@),
{
    let id = age::ssh::Identity::from_buffer(key, None).map_err(|e| e.to_string())?;
    let id = match (id, key_passphrase) {
        (age::ssh::Identity::Encrypted(k), Some(p)) => k.decrypt(p.to_string().into()).map_err(|e| e.to_string())?.into(),
        (other, _) => other,
    };
    let decryptor = age::Decryptor::new(ciphertext).map_err(|e| e.to_string())?;
    let mut reader = decryptor.decrypt(std::iter::once(&id as &dyn age::Identity)).map_err(|e| e.to_string())?;
    let mut out = Vec::new();
    reader.read_to_end(&mut out).map_err(|e| e.to_string())?;
    Ok(out)
}

/// The message for an SSH private key age does not support.
pub open spec fn unsupported_key_message(reason: Seq<char>) -> Seq<char> {
    "Unsupported SSH key type: "@ + reason
}

/// What decrypting with an SSH private key gives, given how the key file reads.
pub open spec fn ssh_decryption_outcome(r: Result<Vec<u8>, String>, ciphertext: Seq<u8>, key: Seq<u8>) -> bool {
    match ssh_identity_kind(key) {
        Err(e) => r matches Err(m) && m@ == ssh_private_key_parse_message(e),
        Ok(SshKeyKindView::Unsupported(k)) => r matches Err(m) && m@ == unsupported_key_message(k),
        Ok(_) => (!bytes_start_with(ciphertext, age_magic()) ==> r is Err) && (r matches Ok(b)
            ==> age_ssh_plaintext(ciphertext, key) == Some(b@)),
    }
}

/// Decrypt `ciphertext` with the SSH private key whose file holds `key`, opened
/// with `key_passphrase` where it is encrypted: a file that is no key, or a key age
/// does not support, is refused before any decryption.
pub fn decrypt_with_ssh_privkey(ciphertext: &[u8], key: &[u8], key_passphrase: Option<&str>) -> (r: Result<
    Vec<u8>,
    String,
>)
    ensures
        ssh_decryption_outcome(r, ciphertext@, key@),
{
    match ssh_private_key_kind(key) {
        Err(e) => Err(e),
        Ok(SshKeyKind::Unsupported(k)) => {
            let mut v = chars_of("Unsupported SSH key type: ");
            push_str(&mut v, k.as_str());
            Err(string_from(v.as_slice()))
        },
        Ok(_) => decrypt_with_ssh_identity(ciphertext, key, key_passphrase),
    }
}

/// `String::from_utf8`: the text the bytes encode, if they are valid UTF-8.
/// The error's own text (which byte failed) is not stated.
#[verifier::external_body]
fn string_from_utf8(bytes: Vec<u8>) -> (r: Result<String, String>)
    ensures
        r is Ok <==> vstd::utf8::valid_utf8(bytes@),
        r matches Ok(s) ==> s@ == vstd::utf8::decode_utf8(bytes@),
{
    String::from_utf8(bytes).map_err(|e| e.to_string())
}

/// The prefix of the message for a decrypted token that is not text.
pub open spec fn not_utf8_prefix() -> Seq<char> {
    "Decrypted token is not valid UTF-8: "@
}

/// The token that decrypted bytes hold: their text, or an error if they are not UTF-8.
pub fn token_from_bytes(bytes: Vec<u8>) -> (r: Result<String, String>)
    ensures
        r is Ok <==> vstd::utf8::valid_utf8(bytes@),
        r matches Ok(s) ==> s@ == vstd::utf8::decode_utf8(bytes@),
        r matches Ok(s) ==> vstd::utf8::encode_utf8(s@) == bytes@,
        r matches Err(e) ==> crate::text::starts_with(e@, not_utf8_prefix()),
{
    let ghost b = bytes@;
    match string_from_utf8(bytes) {
        Ok(s) => {
            proof {
                vstd::utf8::decode_utf8_encode_utf8(b);
            }
            Ok(s)
        },
        Err(e) => {
            let mut v = chars_of("Decrypted token is not valid UTF-8: ");
            let ghost p = v@;
            push_str(&mut v, e.as_str());
            assert(v@.subrange(0, p.len() as int) =~= p);
            Err(string_from(v.as_slice()))
        },
    }
}

/// How a credential is encrypted for storage.
pub enum CredentialEncryptionMethod {
    /// With a passphrase (age scrypt).
    Passphrase(String),
    /// To an SSH public key: the key's text, as read from the public key file.
    SshPublicKey(String),
}

/// Encrypt a token for storage. With a passphrase it always succeeds; to an SSH
/// public key it succeeds exactly when the trimmed key text is an SSH public key.
/// The result is an age v1 file that holds the token's UTF-8 text for that
/// passphrase or key.
pub fn encrypt_token(plaintext: &str, method: &CredentialEncryptionMethod) -> (r: Result<Vec<u8>, String>)
    ensures
        r matches Ok(c) ==> bytes_start_with(c@, age_v1_line()),
        method matches CredentialEncryptionMethod::Passphrase(p) ==> r is Ok && (r matches Ok(c)
            ==> age_passphrase_plaintext(c@, p@) == Some(vstd::utf8::encode_utf8(plaintext@))),
        method matches CredentialEncryptionMethod::SshPublicKey(k) ==> ((r is Ok <==> parses_as_ssh_recipient(
            trim(k@),
        )) && (r matches Ok(c) ==> age_recipient_plaintext(c@, trim(k@)) == Some(
            vstd::utf8::encode_utf8(plaintext@),
        )) && (r matches Err(e) ==> crate::text::starts_with(e@, ssh_key_parse_prefix()))),
{
    let data = plaintext.as_bytes();
    match method {
        CredentialEncryptionMethod::Passphrase(p) => encrypt_with_passphrase(data, p.as_str()),
        CredentialEncryptionMethod::SshPublicKey(k) => encrypt_with_ssh_pubkey(data, k.as_str()),
    }
}

/// How a stored credential is decrypted.
pub enum CredentialDecryptionMethod {
    /// With a passphrase.
    Passphrase(String),
    /// With an SSH private key: the key file's bytes, and the key's own passphrase
    /// where it has one.
    SshPrivateKey { key: Vec<u8>, key_passphrase: Option<String> },
}

/// Decrypt token bytes back to their text: the decryption's error as it is, or
/// what `token_from_bytes` makes of the decrypted bytes. What comes back is the
/// text the file holds for that passphrase or key.
pub fn decrypt_token(ciphertext: &[u8], method: &CredentialDecryptionMethod) -> (r: Result<String, String>)
    ensures
        !bytes_start_with(ciphertext@, age_magic()) ==> r is Err,
        method matches CredentialDecryptionMethod::Passphrase(p) ==> (r matches Ok(s)
            ==> age_passphrase_plaintext(ciphertext@, p@) == Some(vstd::utf8::encode_utf8(s@))),
        method matches CredentialDecryptionMethod::SshPrivateKey { key, .. } ==> (match ssh_identity_kind(key@) {
            Err(e) => r matches Err(m) && m@ == ssh_private_key_parse_message(e),
            Ok(SshKeyKindView::Unsupported(k)) => r matches Err(m) && m@ == unsupported_key_message(k),
            Ok(_) => r matches Ok(s) ==> age_ssh_plaintext(ciphertext@, key@) == Some(
                vstd::utf8::encode_utf8(s@),
            ),
        }),
{
    let decrypted = match method {
        CredentialDecryptionMethod::Passphrase(p) => decrypt_with_passphrase(ciphertext, p.as_str()),
        CredentialDecryptionMethod::SshPrivateKey { key, key_passphrase } => {
            let kp: Option<&str> = match key_passphrase {
                Some(x) => Some(x.as_str()),
                None => None,
            };
            decrypt_with_ssh_privkey(ciphertext, key.as_slice(), kp)
        },
    };
    match decrypted {
        Ok(bytes) => token_from_bytes(bytes),
        Err(e) => Err(e),
    }
}

/// A token encrypted with a passphrase and decrypted with the same passphrase
/// comes back unchanged, whenever the decryption succeeds: the two sides state the
/// same plaintext of the same file.
pub proof fn law_token_round_trip(token: Seq<char>, passphrase: Seq<char>, file: Seq<u8>, back: Seq<char>)
    requires
        age_passphrase_plaintext(file, passphrase) == Some(vstd::utf8::encode_utf8(token)),
        age_passphrase_plaintext(file, passphrase) == Some(vstd::utf8::encode_utf8(back)),
    ensures
        back == token,
{
    vstd::utf8::encode_utf8_decode_utf8(token);
    vstd::utf8::encode_utf8_decode_utf8(back);
}

/// An archive encrypted with a passphrase and decrypted with the same passphrase
/// gives back the bytes that went in, whenever the decryption succeeds.
pub proof fn law_archive_round_trip(data: Seq<u8>, passphrase: Seq<char>, file: Seq<u8>, back: Seq<u8>)
    requires
        age_passphrase_plaintext(file, passphrase) == Some(data),
        age_passphrase_plaintext(file, passphrase) == Some(back),
    ensures
        back == data,
{
}

// ---------------------------------------------------------------------------
// Passphrase retries
// ---------------------------------------------------------------------------

/// Where the retry protocol stands: how many decryption attempts have started,
/// and whether the first one used the cached passphrase.
pub struct PassphraseRetry {
    attempts: u64,
    used_cache: bool,
}

/// What happened since the last step.
pub enum RetryEvent {
    /// The protocol starts; `cached` tells whether a passphrase is cached.
    Begin { cached: bool },
    /// The cached passphrase was tried.
    CachedTried { decrypted: bool },
    /// Reading a passphrase from the terminal failed with this message.
    PromptFailed(String),
    /// A typed passphrase was tried: `None` if it decrypted, else the error message.
    PromptTried(Option<String>),
}

/// What to do next.
pub enum RetryStep {
    /// Decrypt with the cached passphrase.
    TryCached,
    /// Print `notice` (if any) to standard error, forget the cached passphrase if
    /// `clear_cache`, then read a passphrase and decrypt with it.
    Prompt { clear_cache: bool, notice: Option<String> },
    /// Decryption succeeded; remember the typed passphrase if `remember`.
    Succeeded { remember: bool },
    /// Give up with this message.
    Failed(String),
}

/// The view of a step.
pub enum RetryStepView {
    TryCached,
    Prompt { clear_cache: bool, notice: Option<Seq<char>> },
    Succeeded { remember: bool },
    Failed(Seq<char>),
}

impl View for RetryStep {
    type V = RetryStepView;

    open spec fn view(&self) -> RetryStepView {
        match self {
            RetryStep::TryCached => RetryStepView::TryCached,
            RetryStep::Prompt { clear_cache, notice } => RetryStepView::Prompt {
                clear_cache: *clear_cache,
                notice: opt_view(*notice),
            },
            RetryStep::Succeeded { remember } => RetryStepView::Succeeded { remember: *remember },
            RetryStep::Failed(m) => RetryStepView::Failed(m@),
        }
    }
}

/// The notice after the cached passphrase failed.
pub open spec fn cached_failed_notice() -> Seq<char> {
    "  Cached passphrase failed, prompting for a new one..."@
}

/// ` ({remaining} attempt(s) remaining)`.
pub open spec fn remaining_suffix(remaining: nat) -> Seq<char> {
    " ("@ + decimal(remaining) + " attempt(s) remaining)"@
}

/// The notice after reading a passphrase failed with `e`.
pub open spec fn read_failed_notice(e: Seq<char>, remaining: nat) -> Seq<char> {
    "  Error reading passphrase: "@ + e + remaining_suffix(remaining)
}

/// The notice after a typed passphrase failed to decrypt with `e`.
pub open spec fn decrypt_failed_notice(e: Seq<char>, remaining: nat) -> Seq<char> {
    "  Decryption failed: "@ + e + remaining_suffix(remaining)
}

/// The message when the last typed passphrase failed to decrypt with `e`.
pub open spec fn exhausted_message(e: Seq<char>) -> Seq<char> {
    "Failed to decrypt credential after "@ + decimal(MAX_PASSPHRASE_ATTEMPTS as nat) + " attempts: "@ + e
}

/// The message when no attempt is left before prompting.
pub open spec fn out_of_attempts_message(used_cache: bool) -> Seq<char> {
    "Failed to decrypt credential after "@ + (if used_cache {
        "cache + prompt"@
    } else {
        "prompt"@
    }) + " attempts"@
}

/// Going on to a prompt: with an attempt left, one more attempt starts; otherwise the protocol fails.
pub open spec fn prompt_next(
    attempts: nat,
    used_cache: bool,
    clear_cache: bool,
    notice: Option<Seq<char>>,
) -> (nat, RetryStepView) {
    if attempts < MAX_PASSPHRASE_ATTEMPTS {
        ((attempts + 1) as nat, RetryStepView::Prompt { clear_cache, notice })
    } else {
        (attempts, RetryStepView::Failed(out_of_attempts_message(used_cache)))
    }
}

/// The protocol's transition: the attempts count after the event, and the step to take.
pub open spec fn retry_transition(attempts: nat, used_cache: bool, e: RetryEventView) -> (nat, bool, RetryStepView) {
    match e {
        RetryEventView::Begin { cached } => if cached {
            (1, true, RetryStepView::TryCached)
        } else {
            let (a, st) = prompt_next(0, false, false, None);
            (a, false, st)
        },
        RetryEventView::CachedTried { decrypted } => if decrypted {
            (attempts, used_cache, RetryStepView::Succeeded { remember: false })
        } else {
            let (a, st) = prompt_next(attempts, used_cache, true, Some(cached_failed_notice()));
            (a, used_cache, st)
        },
        RetryEventView::PromptFailed(msg) => {
            let remaining = (MAX_PASSPHRASE_ATTEMPTS - attempts) as nat;
            if remaining > 0 {
                let (a, st) = prompt_next(attempts, used_cache, false, Some(read_failed_notice(msg, remaining)));
                (a, used_cache, st)
            } else {
                (attempts, used_cache, RetryStepView::Failed(msg))
            }
        },
        RetryEventView::PromptTried(outcome) => match outcome {
            None => (attempts, used_cache, RetryStepView::Succeeded { remember: true }),
            Some(msg) => {
                let remaining = (MAX_PASSPHRASE_ATTEMPTS - attempts) as nat;
                if remaining > 0 {
                    let (a, st) = prompt_next(
                        attempts,
                        used_cache,
                        false,
                        Some(decrypt_failed_notice(msg, remaining)),
                    );
                    (a, used_cache, st)
                } else {
                    (attempts, used_cache, RetryStepView::Failed(exhausted_message(msg)))
                }
            },
        },
    }
}

/// The view of an event.
pub enum RetryEventView {
    Begin { cached: bool },
    CachedTried { decrypted: bool },
    PromptFailed(Seq<char>),
    PromptTried(Option<Seq<char>>),
}

impl View for RetryEvent {
    type V = RetryEventView;

    open spec fn view(&self) -> RetryEventView {
        match self {
            RetryEvent::Begin { cached } => RetryEventView::Begin { cached: *cached },
            RetryEvent::CachedTried { decrypted } => RetryEventView::CachedTried { decrypted: *decrypted },
            RetryEvent::PromptFailed(m) => RetryEventView::PromptFailed(m@),
            RetryEvent::PromptTried(o) => RetryEventView::PromptTried(opt_view(*o)),
        }
    }
}

impl PassphraseRetry {
    #[verifier::type_invariant]
    spec fn within_limit(self) -> bool {
        self.attempts <= MAX_PASSPHRASE_ATTEMPTS
    }

    /// How many decryption attempts have started.
    pub closed spec fn spec_attempts(self) -> nat {
        self.attempts as nat
    }

    /// Whether the first attempt used the cached passphrase.
    pub closed spec fn spec_used_cache(self) -> bool {
        self.used_cache
    }

    /// A protocol that has not started.
    pub fn new() -> (r: PassphraseRetry)
        ensures
            r.spec_attempts() == 0,
            !r.spec_used_cache(),
    {
        PassphraseRetry { attempts: 0, used_cache: false }
    }

    /// Advance the protocol by one event.
    pub fn step(&mut self, event: RetryEvent) -> (r: RetryStep)
        ensures
            retry_transition(old(self).spec_attempts(), old(self).spec_used_cache(), event@) == (
                final(self).spec_attempts(),
                final(self).spec_used_cache(),
                r@,
            ),
            final(self).spec_attempts() <= MAX_PASSPHRASE_ATTEMPTS,
    {
        proof {
            use_type_invariant(&*self);
        }
        match event {
            RetryEvent::Begin { cached } => {
                if cached {
                    self.attempts = 1;
                    self.used_cache = true;
                    RetryStep::TryCached
                } else {
                    self.attempts = 0;
                    self.used_cache = false;
                    self.next_prompt(false, None)
                }
            },
            RetryEvent::CachedTried { decrypted } => {
                if decrypted {
                    RetryStep::Succeeded { remember: false }
                } else {
                    let notice = string_from(
                        chars_of("  Cached passphrase failed, prompting for a new one...").as_slice(),
                    );
                    self.next_prompt(true, Some(notice))
                }
            },
            RetryEvent::PromptFailed(msg) => {
                let remaining = MAX_PASSPHRASE_ATTEMPTS - self.attempts;
                if remaining > 0 {
                    let mut v = chars_of("  Error reading passphrase: ");
                    push_str(&mut v, msg.as_str());
                    push_remaining(&mut v, remaining);
                    assert(v@ =~= read_failed_notice(msg@, remaining as nat));
                    self.next_prompt(false, Some(string_from(v.as_slice())))
                } else {
                    RetryStep::Failed(msg)
                }
            },
            RetryEvent::PromptTried(outcome) => match outcome {
                None => RetryStep::Succeeded { remember: true },
                Some(msg) => {
                    let remaining = MAX_PASSPHRASE_ATTEMPTS - self.attempts;
                    if remaining > 0 {
                        let mut v = chars_of("  Decryption failed: ");
                        push_str(&mut v, msg.as_str());
                        push_remaining(&mut v, remaining);
                        assert(v@ =~= decrypt_failed_notice(msg@, remaining as nat));
                        self.next_prompt(false, Some(string_from(v.as_slice())))
                    } else {
                        let mut v = chars_of("Failed to decrypt credential after ");
                        push_decimal(&mut v, MAX_PASSPHRASE_ATTEMPTS);
                        push_str(&mut v, " attempts: ");
                        push_str(&mut v, msg.as_str());
                        assert(v@ =~= exhausted_message(msg@));
                        RetryStep::Failed(string_from(v.as_slice()))
                    }
                },
            },
        }
    }

    fn next_prompt(&mut self, clear_cache: bool, notice: Option<String>) -> (r: RetryStep)
        ensures
            final(self).spec_used_cache() == old(self).spec_used_cache(),
            prompt_next(old(self).spec_attempts(), old(self).spec_used_cache(), clear_cache, opt_view(notice))
                == (final(self).spec_attempts(), r@),
    {
        proof {
            use_type_invariant(&*self);
        }
        if self.attempts < MAX_PASSPHRASE_ATTEMPTS {
            self.attempts = self.attempts + 1;
            RetryStep::Prompt { clear_cache, notice }
        } else {
            let mut v = chars_of("Failed to decrypt credential after ");
            if self.used_cache {
                push_str(&mut v, "cache + prompt");
            } else {
                push_str(&mut v, "prompt");
            }
            push_str(&mut v, " attempts");
            assert(v@ =~= out_of_attempts_message(self.used_cache));
            RetryStep::Failed(string_from(v.as_slice()))
        }
    }
}

fn push_remaining(v: &mut Vec<char>, remaining: u64)
    ensures
        final(v)@ == old(v)@ + remaining_suffix(remaining as nat),
{
    push_str(v, " (");
    push_decimal(v, remaining);
    push_str(v, " attempt(s) remaining)");
    assert(final(v)@ =~= old(v)@ + remaining_suffix(remaining as nat));
}

/// The protocol never starts more than the allowed number of decryption attempts,
/// and every step that asks for a decryption (the cached passphrase or a typed
/// one) starts exactly one more.
pub proof fn law_retry_attempts_bounded(attempts: nat, used_cache: bool, e: RetryEventView)
    requires
        attempts <= MAX_PASSPHRASE_ATTEMPTS,
    ensures
        ({
            let (a, u, st) = retry_transition(attempts, used_cache, e);
            &&& a <= MAX_PASSPHRASE_ATTEMPTS
            &&& st is TryCached ==> a == 1
            &&& st is Prompt ==> a == (if e is Begin { 0 } else { attempts }) + 1
            &&& !(st is TryCached || st is Prompt) ==> a == attempts || e is Begin
        }),
{
}

/// A cached passphrase that fails to decrypt is forgotten before the user is asked
/// again, and only a typed passphrase that decrypted is remembered.
pub proof fn law_retry_cache_hygiene(attempts: nat, used_cache: bool, e: RetryEventView)
    requires
        attempts < MAX_PASSPHRASE_ATTEMPTS,
    ensures
        ({
            let (a, u, st) = retry_transition(attempts, used_cache, e);
            &&& e == (RetryEventView::CachedTried { decrypted: false }) ==> st == (RetryStepView::Prompt {
                clear_cache: true,
                notice: Some(cached_failed_notice()),
            })
            &&& st matches RetryStepView::Succeeded { remember } ==> (remember <==> e is PromptTried)
            &&& st matches RetryStepView::Prompt { clear_cache, .. } ==> (clear_cache <==> e is CachedTried)
        }),
{
}

// ---------------------------------------------------------------------------
// Choosing how to decrypt a stored credential
// ---------------------------------------------------------------------------

/// How a stored credential will be decrypted.
pub enum DecryptionPlan {
    /// With this cached passphrase.
    Passphrase(String),
    /// With a passphrase the user types (the caller prompts, then caches it).
    PromptPassphrase,
    /// With the SSH private key at this path, remembered for the session.
    SshKey(String),
    /// With the SSH private key at this path, derived from the public key the
    /// credential was encrypted to; it is now remembered for the session.
    SshKeyFound(String),
    /// With an SSH private key whose path the user types after this prompt.
    PromptSshKey(String),
}

/// The prompt for an SSH private key path.
pub open spec fn ssh_key_prompt(hint: Option<Seq<char>>) -> Seq<char> {
    "Path to SSH private key for credential decryption"@ + match hint {
        Some(h) => " (encrypted with: "@ + h + ")"@,
        None => Seq::empty(),
    } + ": "@
}

/// `s` without the suffix `suffix` where it has it.
pub open spec fn strip_suffix_or_keep(s: Seq<char>, suffix: Seq<char>) -> Seq<char> {
    if ends_with(s, suffix) {
        s.subrange(0, s.len() - suffix.len())
    } else {
        s
    }
}

/// The private key that goes with a public key path: the path without `.pub`, `~` expanded.
pub open spec fn private_key_candidate(hint: Seq<char>, home: Option<Seq<char>>) -> Seq<char> {
    expand_tilde_with(strip_suffix_or_keep(hint, ".pub"@), home)
}

/// The message for an unknown encryption method tag.
pub open spec fn unknown_method_message(m: Seq<char>) -> Seq<char> {
    "Unknown encryption method: "@ + m
}

fn ssh_prompt_text(ssh_hint: Option<&str>) -> (r: String)
    ensures
        r@ == ssh_key_prompt(match ssh_hint { Some(h) => Some(h@), None => None }),
{
    let mut v = chars_of("Path to SSH private key for credential decryption");
    match ssh_hint {
        Some(h) => {
            push_str(&mut v, " (encrypted with: ");
            push_str(&mut v, h);
            push_str(&mut v, ")");
        },
        None => {},
    }
    push_str(&mut v, ": ");
    assert(v@ =~= ssh_key_prompt(match ssh_hint { Some(h) => Some(h@), None => None }));
    string_from(v.as_slice())
}

/// The private key path derived from a public key path.
pub fn private_key_for(hint: &str, home: &Option<String>) -> (r: String)
    ensures
        r@ == private_key_candidate(hint@, opt_view(*home)),
{
    proof {
        reveal_strlit(".pub");
    }
    let h = chars_of(hint);
    let suffix = chars_of(".pub");
    let base = if has_suffix(h.as_slice(), suffix.as_slice()) {
        slice_of(h.as_slice(), 0, h.len() - suffix.len())
    } else {
        h
    };
    assert(base@ == strip_suffix_or_keep(hint@, ".pub"@));
    let b = string_from(base.as_slice());
    expand_tilde_in(b.as_str(), home)
}

/// Choose how to decrypt a credential stored with `encryption_method`; for SSH,
/// `ssh_hint` is the public key it was encrypted to and `home` the home directory.
pub fn plan_decryption(
    cache: &mut SessionCache,
    encryption_method: &str,
    ssh_hint: Option<&str>,
    home: &Option<String>,
) -> (r: Result<DecryptionPlan, String>)
    ensures
        encryption_method@ == "passphrase"@ ==> final(cache)@ == old(cache)@ && (match old(cache)@.passphrase {
            Some(p) => r matches Ok(DecryptionPlan::Passphrase(q)) && q@ == p,
            None => r matches Ok(DecryptionPlan::PromptPassphrase),
        }),
        encryption_method@ == "ssh"@ ==> match old(cache)@.ssh_key_path {
            Some(p) => final(cache)@ == old(cache)@ && (r matches Ok(DecryptionPlan::SshKey(q)) && q@ == p),
            None => match ssh_hint {
                Some(h) => {
                    let c = private_key_candidate(h@, opt_view(*home));
                    ||| (r matches Ok(DecryptionPlan::SshKeyFound(q)) && q@ == c && final(cache)@ == (
                        SessionCacheView { ssh_key_path: Some(c), ..old(cache)@ }))
                    ||| (r matches Ok(DecryptionPlan::PromptSshKey(q)) && q@ == ssh_key_prompt(Some(h@))
                        && final(cache)@ == old(cache)@)
                },
                None => final(cache)@ == old(cache)@ && (r matches Ok(DecryptionPlan::PromptSshKey(q))
                    && q@ == ssh_key_prompt(None)),
            },
        },
        encryption_method@ != "passphrase"@ && encryption_method@ != "ssh"@ ==> final(cache)@
            == old(cache)@ && (r matches Err(e) && e@ == unknown_method_message(encryption_method@)),
{
    proof {
        reveal_strlit("passphrase");
        reveal_strlit("ssh");
        assert("passphrase"@.len() != "ssh"@.len());
    }
    if str_eq(encryption_method, "passphrase") {
        match cache.get_cached_passphrase() {
            Some(p) => Ok(DecryptionPlan::Passphrase(p)),
            None => Ok(DecryptionPlan::PromptPassphrase),
        }
    } else if str_eq(encryption_method, "ssh") {
        match cache.get_cached_ssh_key_path() {
            Some(p) => Ok(DecryptionPlan::SshKey(p)),
            None => {
                match ssh_hint {
                    Some(h) => {
                        let candidate = private_key_for(h, home);
                        if path_exists(candidate.as_str()) {
                            cache.cache_ssh_key_path(candidate.as_str());
                            Ok(DecryptionPlan::SshKeyFound(candidate))
                        } else {
                            Ok(DecryptionPlan::PromptSshKey(ssh_prompt_text(ssh_hint)))
                        }
                    },
                    None => Ok(DecryptionPlan::PromptSshKey(ssh_prompt_text(None))),
                }
            },
        }
    } else {
        let mut v = chars_of("Unknown encryption method: ");
        push_str(&mut v, encryption_method);
        Err(string_from(v.as_slice()))
    }
}

/// What a typed SSH key path means: the trimmed text with `~` expanded, unless it is empty.
pub open spec fn spec_typed_key_path(input: Seq<char>, home: Option<Seq<char>>, empty_message: Seq<char>) -> Result<
    Seq<char>,
    Seq<char>,
> {
    if trim(input).len() == 0 {
        Err(empty_message)
    } else {
        Ok(expand_tilde_with(trim(input), home))
    }
}

/// The message for an empty SSH private key path.
pub open spec fn empty_private_key_message() -> Seq<char> {
    "SSH private key path cannot be empty"@
}

fn typed_key_path(input: &str, home: &Option<String>, empty_message: &str) -> (r: Result<String, String>)
    ensures
        match (r, spec_typed_key_path(input@, opt_view(*home), empty_message@)) {
            (Ok(p), Ok(sp)) => p@ == sp,
            (Err(e), Err(se)) => e@ == se,
            _ => false,
        },
{
    let v = chars_of(input);
    let t = trim_chars(v.as_slice());
    if t.len() == 0 {
        Err(string_from(chars_of(empty_message).as_slice()))
    } else {
        let ts = string_from(t.as_slice());
        Ok(expand_tilde_in(ts.as_str(), home))
    }
}

/// The SSH private key path the user typed (the caller remembers it for the session).
pub fn private_key_from_input(input: &str, home: &Option<String>) -> (r: Result<String, String>)
    ensures
        match (r, spec_typed_key_path(input@, opt_view(*home), empty_private_key_message())) {
            (Ok(p), Ok(sp)) => p@ == sp,
            (Err(e), Err(se)) => e@ == se,
            _ => false,
        },
{
    typed_key_path(input, home, "SSH private key path cannot be empty")
}

/// The encryption method a menu answer selects: `2` is an SSH public key, anything else a passphrase.
pub fn chooses_ssh(answer: &str) -> (r: bool)
    ensures
        r == (trim(answer@) == "2"@),
{
    let v = chars_of(answer);
    let t = trim_chars(v.as_slice());
    let two = chars_of("2");
    crate::text::same_chars(t.as_slice(), two.as_slice())
}

/// The message for a public key path that does not exist.
pub open spec fn public_key_missing_message(path: Seq<char>) -> Seq<char> {
    "SSH public key not found: "@ + path
}

/// The SSH public key path the user typed: trimmed, `~` expanded, and present on disk.
pub fn public_key_from_input(input: &str, home: &Option<String>) -> (r: Result<String, String>)
    ensures
        match spec_typed_key_path(input@, opt_view(*home), "SSH public key path cannot be empty"@) {
            Err(se) => r matches Err(e) && e@ == se,
            Ok(p) => (r matches Ok(q) && q@ == p) || (r matches Err(e) && e@ == public_key_missing_message(p)),
        },
{
    match typed_key_path(input, home, "SSH public key path cannot be empty") {
        Err(e) => Err(e),
        Ok(p) => {
            if path_exists(p.as_str()) {
                Ok(p)
            } else {
                let mut v = chars_of("SSH public key not found: ");
                push_str(&mut v, p.as_str());
                Err(string_from(v.as_slice()))
            }
        },
    }
}

/// The first stored credential with the given key.
pub fn find_credential(creds: &Vec<StoredCredential>, credential_key: &str) -> (r: Option<usize>)
    ensures
        match r {
            Some(i) => i < creds@.len() && creds@[i as int].credential_key@ == credential_key@
                && forall|j: int| 0 <= j < i ==> (#[trigger] creds@[j]).credential_key@ != credential_key@,
            None => forall|j: int| 0 <= j < creds@.len() ==> (#[trigger] creds@[j]).credential_key@ != credential_key@,
        },
{
    let mut i: usize = 0;
    while i < creds.len()
        invariant
            i <= creds@.len(),
            forall|j: int| 0 <= j < i ==> (#[trigger] creds@[j]).credential_key@ != credential_key@,
        decreases creds@.len() - i,
    {
        if str_eq(creds[i].credential_key.as_str(), credential_key) {
            return Some(i);
        }
        i = i + 1;
    }
    None
}

/// Whether a provider has stored credentials, given what looking them up returned:
/// a failed lookup counts as none.
pub fn has_stored_credentials(lookup: &Result<Vec<StoredCredential>, String>) -> (r: bool)
    ensures
        r == (lookup matches Ok(v) && v@.len() > 0),
{
    match lookup {
        Ok(v) => v.len() > 0,
        Err(_) => false,
    }
}

// ---------------------------------------------------------------------------
// Looking a credential up
// ---------------------------------------------------------------------------

/// What to do next to find a provider's credential.
pub enum CredentialAction {
    /// Return this value, already decrypted in this session.
    Cached(String),
    /// Read the OS keychain's fresh value for the credential, and call again with it.
    ReadKeychain,
    /// Remember this value from the keychain for the session, and return it.
    FromKeychain(String),
    /// Load the provider's stored credentials, and call again with them.
    LoadCredentials,
    /// No credential with this key is stored: return nothing.
    NotStored,
    /// Decrypt the stored credential at this position, and call again with the outcome.
    Decrypt(usize),
    /// Remember the decrypted value for the session (and in the keychain when
    /// `keychain`), and return it.
    Decrypted { value: String, keychain: bool },
    /// Give up with this error.
    Fail(String),
}

/// `i` is the position of the first stored credential with this key.
pub open spec fn first_with_key(creds: Seq<StoredCredential>, key: Seq<char>, i: int) -> bool {
    &&& 0 <= i < creds.len()
    &&& creds[i].credential_key@ == key
    &&& forall|j: int| 0 <= j < i ==> (#[trigger] creds[j]).credential_key@ != key
}

/// The next step in looking up the credential `credential_key` of `provider_id`,
/// given what the steps asked for so far gave: the session cache first; then the
/// OS keychain, when it is used; then the stored credentials, whose first entry
/// with that key is decrypted. A value decrypted is remembered for the session,
/// and in the keychain when it is used.
pub fn next_credential_action(
    cache: &SessionCache,
    provider_id: &str,
    credential_key: &str,
    use_keychain: bool,
    keychain: Option<Option<String>>,
    stored: Option<&Result<Vec<StoredCredential>, String>>,
    decrypted: Option<&Result<String, String>>,
) -> (r: CredentialAction)
    ensures
        cache@.decrypted.contains_key((provider_id@, credential_key@)) ==> (r matches CredentialAction::Cached(v)
            && v@ == cache@.decrypted[(provider_id@, credential_key@)]),
        !cache@.decrypted.contains_key((provider_id@, credential_key@)) ==> {
            if use_keychain && keychain is None {
                r is ReadKeychain
            } else if use_keychain && keychain is Some && keychain->Some_0 is Some {
                r matches CredentialAction::FromKeychain(v) && v@ == keychain->Some_0->Some_0@
            } else {
                match stored {
                    None => r is LoadCredentials,
                    Some(Err(e)) => r matches CredentialAction::Fail(m) && m@ == e@,
                    Some(Ok(creds)) => {
                        &&& (forall|j: int| 0 <= j < creds@.len() ==> (#[trigger] creds@[j]).credential_key@
                            != credential_key@) ==> r is NotStored
                        &&& forall|i: int| #[trigger] first_with_key(creds@, credential_key@, i) ==> match decrypted {
                            None => r matches CredentialAction::Decrypt(x) && x == i,
                            Some(Err(e)) => r matches CredentialAction::Fail(m) && m@ == e@,
                            Some(Ok(v)) => r matches CredentialAction::Decrypted { value, keychain: k } && value@
                                == v@ && k == use_keychain,
                        }
                    },
                }
            }
        },
{
    match cache.get_cached_decrypted_value(provider_id, credential_key) {
        Some(v) => {
            return CredentialAction::Cached(v);
        },
        None => {},
    }
    if use_keychain {
        match keychain {
            None => {
                return CredentialAction::ReadKeychain;
            },
            Some(Some(v)) => {
                return CredentialAction::FromKeychain(v);
            },
            Some(None) => {},
        }
    }
    match stored {
        None => CredentialAction::LoadCredentials,
        Some(Err(e)) => CredentialAction::Fail(owned(e.as_str())),
        Some(Ok(creds)) => match find_credential(creds, credential_key) {
            None => CredentialAction::NotStored,
            Some(i) => {
                proof {
                    assert forall|k: int| #[trigger] first_with_key(creds@, credential_key@, k) implies k
                        == i as int by {
                        if k < i {
                            assert(creds@[k].credential_key@ != credential_key@);
                        }
                        if k > i {
                            assert(creds@[i as int].credential_key@ != credential_key@);
                        }
                    }
                }
                match decrypted {
                    None => CredentialAction::Decrypt(i),
                    Some(Err(e)) => CredentialAction::Fail(owned(e.as_str())),
                    Some(Ok(v)) => CredentialAction::Decrypted { value: owned(v.as_str()), keychain: use_keychain },
                }
            },
        },
    }
}

} // verus!
