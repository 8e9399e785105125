//! Naming and expiry of credential values cached in the OS keychain.
//!
//! The keychain only caches: the encrypted credentials in the database stay
//! the source of truth. Entries are scoped by the canonical secrets path, so
//! two configurations with different secrets directories never share an entry.

use vstd::prelude::*;
use crate::text::{chars_of, push_str, string_from};

verus! {

/// The keychain service under which every entry is stored.
pub fn keychain_service() -> (r: &'static str)
    ensures
        r@ == "jaws"@,
{
    "jaws"
}

/// The keychain "user" of an entry: `{canonical_secrets_path}:{provider_id}/{credential_key}`.
pub open spec fn spec_entry_user(prefix: Seq<char>, provider_id: Seq<char>, credential_key: Seq<char>) -> Seq<char> {
    prefix + ":"@ + provider_id + "/"@ + credential_key
}

/// The keychain "user" field for a credential, given the canonical form of the
/// secrets path (the path itself where it cannot be canonicalised).
pub fn entry_user(canonical_secrets_path: &str, provider_id: &str, credential_key: &str) -> (r: String)
    ensures
        r@ == spec_entry_user(canonical_secrets_path@, provider_id@, credential_key@),
{
    let mut v: Vec<char> = chars_of(canonical_secrets_path);
    push_str(&mut v, ":");
    push_str(&mut v, provider_id);
    push_str(&mut v, "/");
    push_str(&mut v, credential_key);
    string_from(v.as_slice())
}

/// A cached value stored at `stored_at` is still usable at `now` (both Unix
/// seconds): it is not from the future and not older than `ttl_secs`.
pub open spec fn spec_is_fresh(now: int, stored_at: int, ttl_secs: int) -> bool {
    0 <= now - stored_at <= ttl_secs
}

/// Whether a cached keychain value may be returned; a stale one is deleted by the caller.
pub fn cached_value_is_fresh(now: i64, stored_at: i64, ttl_secs: u64) -> (r: bool)
    requires
        i64::MIN <= now - stored_at <= i64::MAX,
    ensures
        r == spec_is_fresh(now as int, stored_at as int, ttl_secs as int),
{
    let age: i64 = now - stored_at;
    !(age < 0 || age as u64 > ttl_secs)
}

/// A value read back at the moment it was stored is fresh, whatever the TTL.
pub proof fn law_fresh_when_just_stored(now: int, ttl_secs: nat)
    ensures
        spec_is_fresh(now, now, ttl_secs as int),
{
}

/// Freshness only shrinks as time passes: a value stale at `t1` stays stale at any later `t2`
/// (unless the clock went backwards past the store time, which also counts as stale).
pub proof fn law_stale_stays_stale(t1: int, t2: int, stored_at: int, ttl_secs: int)
    requires
        t1 <= t2,
        t1 >= stored_at,
        !spec_is_fresh(t1, stored_at, ttl_secs),
    ensures
        !spec_is_fresh(t2, stored_at, ttl_secs),
{
}

/// Entries of different secrets directories never collide: for the same provider
/// and credential, different canonical paths give different keychain users.
pub proof fn law_entry_user_isolates_paths(p1: Seq<char>, p2: Seq<char>, provider_id: Seq<char>, credential_key: Seq<char>)
    requires
        p1 != p2,
    ensures
        spec_entry_user(p1, provider_id, credential_key) != spec_entry_user(p2, provider_id, credential_key),
{
    let suffix = ":"@ + provider_id + "/"@ + credential_key;
    let a = spec_entry_user(p1, provider_id, credential_key);
    let b = spec_entry_user(p2, provider_id, credential_key);
    assert(a =~= p1 + suffix);
    assert(b =~= p2 + suffix);
    if a == b {
        assert(p1.len() == p2.len());
        assert(p1 =~= a.subrange(0, p1.len() as int));
        assert(p2 =~= b.subrange(0, p2.len() as int));
    }
}

} // verus!
