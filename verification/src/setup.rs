//! Interactive configuration: where the file goes, the first defaults, and which
//! provider kinds can be added or removed.

use vstd::prelude::*;
use crate::config::{provider_views, Config, Defaults, ProviderConfig};
use crate::discovery::{spec_aws_profile_of, aws_profile_of};
use crate::paths::opt_view;
use crate::text::{
    chars_of, decimal, parse_unsigned, parse_unsigned_chars, push_decimal, push_str, str_eq,
    string_from, to_lowercase, trim, trim_chars, unicode_lowercase,
};
use crate::textops::{join, push_joined, string_views, views};

verus! {

/// The TTL used when the answer is not a number.
pub const DEFAULT_TTL_ANSWER: u64 = 900;

/// The line of a location option: `{path} — {description}`.
pub open spec fn spec_location_item(path: Seq<char>, desc: Seq<char>) -> Seq<char> {
    path + " — "@ + desc
}

/// The picker line of a location option.
pub fn location_item(path: &str, desc: &str) -> (r: String)
    ensures
        r@ == spec_location_item(path@, desc@),
{
    let mut v = chars_of(path);
    push_str(&mut v, " — ");
    push_str(&mut v, desc);
    string_from(v.as_slice())
}

/// The location a picked line names: the first option whose line it is, else `fallback`.
pub fn location_for_choice(options: &Vec<(String, String)>, choice: &str, fallback: String) -> (r: String)
    ensures
        (exists|i: int|
            0 <= i < options@.len() && spec_location_item(options@[i].0@, options@[i].1@) == choice@
                && r@ == options@[i].0@ && forall|j: int|
                0 <= j < i ==> spec_location_item((#[trigger] options@[j]).0@, options@[j].1@)
                    != choice@) || (r == fallback && forall|j: int|
            0 <= j < options@.len() ==> spec_location_item((#[trigger] options@[j]).0@, options@[j].1@)
                != choice@),
{
    let mut i: usize = 0;
    while i < options.len()
        invariant
            i <= options@.len(),
            forall|j: int|
                0 <= j < i ==> spec_location_item((#[trigger] options@[j]).0@, options@[j].1@)
                    != choice@,
        decreases options@.len() - i,
    {
        let item = location_item(options[i].0.as_str(), options[i].1.as_str());
        if str_eq(item.as_str(), choice) {
            return string_from(chars_of(options[i].0.as_str()).as_slice());
        }
        i = i + 1;
    }
    fallback
}

/// `Config file already exists at: {path}. Use --overwrite to replace it.`
pub open spec fn spec_exists_message(path: Seq<char>) -> Seq<char> {
    "Config file already exists at: "@ + path + ". Use --overwrite to replace it."@
}

/// The error when the chosen config file exists and may not be replaced.
pub fn config_exists_message(path: &str) -> (r: String)
    ensures
        r@ == spec_exists_message(path@),
{
    let mut v = chars_of("Config file already exists at: ");
    push_str(&mut v, path);
    push_str(&mut v, ". Use --overwrite to replace it.");
    string_from(v.as_slice())
}

/// The TTL an answer gives: the number it spells, or 900 when it is none.
pub fn ttl_from_answer(answer: &str) -> (r: u64)
    ensures
        r == match parse_unsigned(answer@, u64::MAX as nat) {
            Some(n) => n,
            None => DEFAULT_TTL_ANSWER as nat,
        },
{
    match parse_unsigned_chars(chars_of(answer).as_slice(), u64::MAX) {
        Some(n) => n,
        None => DEFAULT_TTL_ANSWER,
    }
}

/// The configuration a new file starts with: the three answered defaults and no provider.
pub fn initial_config(editor: String, secrets_path: String, cache_ttl: u64) -> (r: Config)
    ensures
        r.providers@.len() == 0,
        r.defaults matches Some(d) && d.editor == Some(editor) && d.secrets_path == Some(secrets_path)
            && d.cache_ttl == Some(cache_ttl) && d.default_provider is None && d.max_versions is None
            && d.keychain_cache is None,
{
    Config {
        defaults: Some(
            Defaults {
                editor: Some(editor),
                secrets_path: Some(secrets_path),
                cache_ttl: Some(cache_ttl),
                default_provider: None,
                max_versions: None,
                keychain_cache: None,
            },
        ),
        providers: Vec::new(),
    }
}

// ---------------------------------------------------------------------------
// Adding providers
// ---------------------------------------------------------------------------

/// The families of providers that setup can discover.
#[derive(Debug, Clone, Copy, PartialEq, Eq)]
pub enum ProviderFamily {
    Aws,
    OnePassword,
    Bitwarden,
    Gcp,
}

/// The family a kind names, after lowercasing.
pub open spec fn spec_family(kind: Seq<char>) -> Option<ProviderFamily> {
    if kind == "aws"@ {
        Some(ProviderFamily::Aws)
    } else if kind == "onepassword"@ || kind == "1password"@ || kind == "op"@ {
        Some(ProviderFamily::OnePassword)
    } else if kind == "bitwarden"@ || kind == "bw"@ || kind == "bws"@ {
        Some(ProviderFamily::Bitwarden)
    } else if kind == "gcp"@ || kind == "gcloud"@ || kind == "google"@ {
        Some(ProviderFamily::Gcp)
    } else {
        None
    }
}

/// `Unknown provider kind: '{kind}'. Valid kinds: aws, onepassword, bitwarden, gcp`
pub open spec fn unknown_kind_message(kind: Seq<char>) -> Seq<char> {
    "Unknown provider kind: '"@ + kind + "'. Valid kinds: aws, onepassword, bitwarden, gcp"@
}

/// The family of providers to discover for a requested kind (already lowercased).
pub fn family_of(kind: &str) -> (r: Result<ProviderFamily, String>)
    ensures
        match spec_family(kind@) {
            Some(f) => r == Ok::<ProviderFamily, String>(f),
            None => r matches Err(e) && e@ == unknown_kind_message(kind@),
        },
{
    if str_eq(kind, "aws") {
        Ok(ProviderFamily::Aws)
    } else if str_eq(kind, "onepassword") || str_eq(kind, "1password") || str_eq(kind, "op") {
        Ok(ProviderFamily::OnePassword)
    } else if str_eq(kind, "bitwarden") || str_eq(kind, "bw") || str_eq(kind, "bws") {
        Ok(ProviderFamily::Bitwarden)
    } else if str_eq(kind, "gcp") || str_eq(kind, "gcloud") || str_eq(kind, "google") {
        Ok(ProviderFamily::Gcp)
    } else {
        let mut v = chars_of("Unknown provider kind: '");
        push_str(&mut v, kind);
        push_str(&mut v, "'. Valid kinds: aws, onepassword, bitwarden, gcp");
        Err(string_from(v.as_slice()))
    }
}

/// The kind typed on the command line, lowercased.
pub fn requested_kind(kind: &str) -> (r: String)
    ensures
        r@ == unicode_lowercase(kind@),
{
    to_lowercase(kind)
}

/// The kind a picked line names: the text before its first ` - `, trimmed.
pub fn kind_of_choice(choice: &str) -> (r: String)
    ensures
        r@ == crate::text::trim(crate::refs::spec_version_head(choice@)),
{
    crate::refs::head_before_dash(choice)
}

/// `Config updated: {n} provider(s) added to {path}`
pub open spec fn spec_added_message(n: nat, path: Seq<char>) -> Seq<char> {
    "Config updated: "@ + decimal(n) + " provider(s) added to "@ + path
}

/// The report after providers were added.
pub fn added_message(n: u64, path: &str) -> (r: String)
    ensures
        r@ == spec_added_message(n as nat, path@),
{
    let mut v = chars_of("Config updated: ");
    push_decimal(&mut v, n);
    push_str(&mut v, " provider(s) added to ");
    push_str(&mut v, path);
    assert(v@ =~= spec_added_message(n as nat, path@));
    string_from(v.as_slice())
}

// ---------------------------------------------------------------------------
// Removing providers
// ---------------------------------------------------------------------------

/// The picker line of a configured provider: `{id} ({kind})`.
pub fn provider_item(p: &ProviderConfig) -> (r: String)
    ensures
        r@ == p@.id + " ("@ + p@.kind + ")"@,
{
    let mut v = chars_of(p.id.as_str());
    push_str(&mut v, " (");
    push_str(&mut v, p.kind.as_str());
    push_str(&mut v, ")");
    string_from(v.as_slice())
}

/// The provider id a picked line names.
pub fn provider_id_of_choice(choice: &str) -> (r: String)
    ensures
        r@ == spec_aws_profile_of(choice@),
{
    aws_profile_of(choice)
}

/// `Provider '{id}' not found in config. Available: {ids, or (none)}`
pub open spec fn spec_not_configured_message(id: Seq<char>, available: Seq<Seq<char>>) -> Seq<char> {
    "Provider '"@ + id + "' not found in config. Available: "@ + if available.len() == 0 {
        "(none)"@
    } else {
        join(available, ", "@)
    }
}

/// The error when the provider to remove is not configured.
pub fn not_configured_message(id: &str, config: &Config) -> (r: String)
    ensures
        r@ == spec_not_configured_message(id@, provider_views(config.providers@).map_values(|p: crate::config::ProviderView| p.id)),
{
    let ghost want_ids = provider_views(config.providers@).map_values(|p: crate::config::ProviderView| p.id);
    let mut ids: Vec<Vec<char>> = Vec::new();
    let mut i: usize = 0;
    while i < config.providers.len()
        invariant
            i <= config.providers@.len(),
            ids@.len() == i,
            forall|k: int| 0 <= k < i ==> (#[trigger] ids@[k])@ == config.providers@[k].id@,
        decreases config.providers@.len() - i,
    {
        ids.push(chars_of(config.providers[i].id.as_str()));
        i = i + 1;
    }
    assert(views(ids@) =~= want_ids);
    let mut v = chars_of("Provider '");
    push_str(&mut v, id);
    push_str(&mut v, "' not found in config. Available: ");
    if ids.len() == 0 {
        push_str(&mut v, "(none)");
    } else {
        push_joined(&mut v, &ids, chars_of(", ").as_slice());
    }
    assert(v@ =~= spec_not_configured_message(id@, want_ids));
    string_from(v.as_slice())
}

/// The line printed before the credentials found during setup are stored.
pub fn storing_credentials_header(count: u64) -> (r: String)
    ensures
        r@ == "Encrypting "@ + decimal(count as nat) + " credential(s) for secure storage..."@,
{
    let mut v = chars_of("Encrypting ");
    push_decimal(&mut v, count);
    push_str(&mut v, " credential(s) for secure storage...");
    string_from(v.as_slice())
}

/// What storing one credential reports: that it was stored, or (on standard
/// error) why it was not.
pub open spec fn spec_credential_store_line(key: Seq<char>, provider_id: Seq<char>, error: Option<Seq<char>>) -> (
    bool,
    Seq<char>,
) {
    match error {
        None => (false, "  Stored encrypted "@ + key + " for provider '"@ + provider_id + "'"@),
        Some(e) => (true, "  Failed to store "@ + key + " for '"@ + provider_id + "': "@ + e),
    }
}

/// The line printed for one stored credential, with whether it goes to standard error.
pub fn credential_store_line(key: &str, provider_id: &str, outcome: &Result<(), String>) -> (r: (bool, String))
    ensures
        (r.0, r.1@) == spec_credential_store_line(key@, provider_id@, match outcome {
            Ok(_) => None,
            Err(e) => Some(e@),
        }),
{
    match outcome {
        Ok(_) => {
            let mut v = chars_of("  Stored encrypted ");
            push_str(&mut v, key);
            push_str(&mut v, " for provider '");
            push_str(&mut v, provider_id);
            push_str(&mut v, "'");
            (false, string_from(v.as_slice()))
        },
        Err(e) => {
            let mut v = chars_of("  Failed to store ");
            push_str(&mut v, key);
            push_str(&mut v, " for '");
            push_str(&mut v, provider_id);
            push_str(&mut v, "': ");
            push_str(&mut v, e.as_str());
            (true, string_from(v.as_slice()))
        },
    }
}

/// The entry a typed menu number picks among `count` entries numbered from 1:
/// its position, or `None` when the answer (trimmed) is not such a number.
pub fn menu_choice(answer: &str, count: usize) -> (r: Option<usize>)
    ensures
        match parse_unsigned(trim(answer@), u64::MAX as nat) {
            Some(n) => if 1 <= n <= count {
                r == Some((n - 1) as usize)
            } else {
                r is None
            },
            None => r is None,
        },
{
    let t = trim_chars(chars_of(answer).as_slice());
    match parse_unsigned_chars(t.as_slice(), u64::MAX) {
        Some(n) => {
            if n >= 1 && n <= count as u64 {
                Some((n - 1) as usize)
            } else {
                None
            }
        },
        None => None,
    }
}

/// The entry a piece of a menu answer picks, if any: the piece, trimmed, as a
/// number from 1 to `count`, made a position.
pub open spec fn picked_entry(piece: Seq<char>, count: nat) -> Option<int> {
    match parse_unsigned(trim(piece), u64::MAX as nat) {
        Some(n) => if 1 <= n <= count {
            Some(n - 1)
        } else {
            None
        },
        None => None,
    }
}

/// The entries the pieces pick, in order; pieces that pick none are passed over.
pub open spec fn picked_entries(pieces: Seq<Seq<char>>, count: nat) -> Seq<int>
    decreases pieces.len(),
{
    if pieces.len() == 0 {
        Seq::empty()
    } else {
        let prev = picked_entries(pieces.drop_last(), count);
        match picked_entry(pieces.last(), count) {
            Some(i) => prev.push(i),
            None => prev,
        }
    }
}

/// The entries a menu answer such as `1, 3` picks among `count` entries numbered
/// from 1: each comma-separated number in range, as a position, in the order typed.
pub fn menu_choices(answer: &str, count: usize) -> (r: Vec<usize>)
    ensures
        r@.map_values(|x: usize| x as int) == picked_entries(
            crate::textops::split_on(answer@, ","@),
            count as nat,
        ),
{
    proof {
        reveal_strlit(",");
    }
    let s = chars_of(answer);
    let sep = chars_of(",");
    let pieces = crate::textops::split_by(s.as_slice(), sep.as_slice());
    let ghost pv = pieces@.map_values(|v: Vec<char>| v@);
    let mut out: Vec<usize> = Vec::new();
    let mut i: usize = 0;
    while i < pieces.len()
        invariant
            i <= pieces@.len(),
            pv == pieces@.map_values(|v: Vec<char>| v@),
            out@.map_values(|x: usize| x as int) == picked_entries(pv.subrange(0, i as int), count as nat),
        decreases pieces@.len() - i,
    {
        proof {
            assert(pv.subrange(0, i + 1).drop_last() =~= pv.subrange(0, i as int));
            assert(pv.subrange(0, i + 1).last() == pieces@[i as int]@);
        }
        let ghost before = out@.map_values(|x: usize| x as int);
        let t = trim_chars(pieces[i].as_slice());
        match parse_unsigned_chars(t.as_slice(), u64::MAX) {
            Some(n) => {
                if n >= 1 && n <= count as u64 {
                    out.push((n - 1) as usize);
                    assert(out@.map_values(|x: usize| x as int) =~= before.push((n - 1) as int));
                }
            },
            None => {},
        }
        i = i + 1;
    }
    assert(pv.subrange(0, pv.len() as int) =~= pv);
    out
}

} // verus!
