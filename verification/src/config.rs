//! Configuration: defaults, providers, and where the configuration file lives.

use vstd::prelude::*;
use crate::paths::{
    config_dir, data_dir, expand_tilde_in, expand_tilde_with, home_dir, join, join_path, opt_view,
    path_exists, paths_equal, same_path,
};
use crate::text::{
    bool_text, chars_of, decimal, decimal_string, parse_bool, parse_bool_chars, parse_unsigned,
    parse_unsigned_chars, push_str, str_eq, string_from,
};

verus! {

/// Number of versions kept per secret when the configuration sets none.
pub const DEFAULT_MAX_VERSIONS: u32 = 10;

/// Cache time-to-live, in seconds, when the configuration sets none (15 minutes).
pub const DEFAULT_CACHE_TTL: u64 = 900;

/// Default settings.
pub struct Defaults {
    pub editor: Option<String>,
    pub secrets_path: Option<String>,
    pub cache_ttl: Option<u64>,
    /// Provider assumed when a secret reference has no `provider://` prefix.
    pub default_provider: Option<String>,
    /// Maximum number of versions kept per secret.
    pub max_versions: Option<u32>,
    /// Whether decrypted credentials are cached in the OS keychain.
    pub keychain_cache: Option<bool>,
}

/// Configuration of one secrets provider.
pub struct ProviderConfig {
    pub id: String,
    /// "aws", "onepassword", "bw" or "gcp".
    pub kind: String,
    pub profile: Option<String>,
    pub region: Option<String>,
    /// Vault ID for 1Password, or project ID for Bitwarden.
    pub vault: Option<String>,
    /// Organization ID for Bitwarden.
    pub organization: Option<String>,
    pub token_env: Option<String>,
    /// GCP project ID.
    pub project: Option<String>,
}

/// The whole configuration.
pub struct Config {
    pub defaults: Option<Defaults>,
    pub providers: Vec<ProviderConfig>,
}

/// Settings read from an optional `jaws.toml` file.
pub struct FileConfig {
    pub region: Option<String>,
    pub editor: Option<String>,
    pub secrets_path: Option<String>,
}

/// Settings given on the command line.
pub struct Flags {
    pub provider: Option<String>,
    pub region: Option<String>,
    pub editor: Option<String>,
    pub secrets_path: Option<String>,
}

// ---------------------------------------------------------------------------
// Views
// ---------------------------------------------------------------------------

pub struct DefaultsView {
    pub editor: Option<Seq<char>>,
    pub secrets_path: Option<Seq<char>>,
    pub cache_ttl: Option<u64>,
    pub default_provider: Option<Seq<char>>,
    pub max_versions: Option<u32>,
    pub keychain_cache: Option<bool>,
}

pub struct ProviderView {
    pub id: Seq<char>,
    pub kind: Seq<char>,
    pub profile: Option<Seq<char>>,
    pub region: Option<Seq<char>>,
    pub vault: Option<Seq<char>>,
    pub organization: Option<Seq<char>>,
    pub token_env: Option<Seq<char>>,
    pub project: Option<Seq<char>>,
}

pub struct ConfigView {
    pub defaults: Option<DefaultsView>,
    pub providers: Seq<ProviderView>,
}

impl View for Defaults {
    type V = DefaultsView;

    open spec fn view(&self) -> DefaultsView {
        DefaultsView {
            editor: opt_view(self.editor),
            secrets_path: opt_view(self.secrets_path),
            cache_ttl: self.cache_ttl,
            default_provider: opt_view(self.default_provider),
            max_versions: self.max_versions,
            keychain_cache: self.keychain_cache,
        }
    }
}

impl View for ProviderConfig {
    type V = ProviderView;

    open spec fn view(&self) -> ProviderView {
        ProviderView {
            id: self.id@,
            kind: self.kind@,
            profile: opt_view(self.profile),
            region: opt_view(self.region),
            vault: opt_view(self.vault),
            organization: opt_view(self.organization),
            token_env: opt_view(self.token_env),
            project: opt_view(self.project),
        }
    }
}

/// The views of a sequence of provider configurations.
pub open spec fn provider_views(s: Seq<ProviderConfig>) -> Seq<ProviderView> {
    s.map_values(|p: ProviderConfig| p@)
}

impl View for Config {
    type V = ConfigView;

    open spec fn view(&self) -> ConfigView {
        ConfigView {
            defaults: match self.defaults {
                Some(d) => Some(d@),
                None => None,
            },
            providers: provider_views(self.providers@),
        }
    }
}

/// Defaults with nothing set.
pub open spec fn empty_defaults() -> DefaultsView {
    DefaultsView {
        editor: None,
        secrets_path: None,
        cache_ttl: None,
        default_provider: None,
        max_versions: None,
        keychain_cache: None,
    }
}

// ---------------------------------------------------------------------------
// Specifications of the getters
// ---------------------------------------------------------------------------

/// The defaults in force: the configured ones, or none set.
pub open spec fn defaults_or_empty(c: ConfigView) -> DefaultsView {
    match c.defaults {
        Some(d) => d,
        None => empty_defaults(),
    }
}

/// The editor: the configured one, else `$EDITOR`, else `vi`.
pub open spec fn spec_editor(c: ConfigView, editor_env: Option<Seq<char>>) -> Seq<char> {
    match defaults_or_empty(c).editor {
        Some(e) => e,
        None => match editor_env {
            Some(e) => e,
            None => "vi"@,
        },
    }
}

/// The secrets directory: the configured one with `~` expanded, else `./.secrets`.
pub open spec fn spec_secrets_path(c: ConfigView, home: Option<Seq<char>>) -> Seq<char> {
    match defaults_or_empty(c).secrets_path {
        Some(p) => expand_tilde_with(p, home),
        None => "./.secrets"@,
    }
}

/// The database file inside the secrets directory.
pub open spec fn spec_db_path(c: ConfigView, home: Option<Seq<char>>) -> Seq<char> {
    join(spec_secrets_path(c, home), "jaws.db"@)
}

/// The cache time-to-live in seconds, 900 when unset.
pub open spec fn spec_cache_ttl(c: ConfigView) -> u64 {
    match defaults_or_empty(c).cache_ttl {
        Some(t) => t,
        None => 900,
    }
}

/// The maximum number of versions kept, 10 when unset.
pub open spec fn spec_max_versions(c: ConfigView) -> Option<u32> {
    match defaults_or_empty(c).max_versions {
        Some(m) => Some(m),
        None => Some(10),
    }
}

/// Whether keychain caching is on, true when unset.
pub open spec fn spec_keychain_cache(c: ConfigView) -> bool {
    match defaults_or_empty(c).keychain_cache {
        Some(b) => b,
        None => true,
    }
}

// ---------------------------------------------------------------------------
// Providers kept by id
// ---------------------------------------------------------------------------

/// `s` without the providers whose id is `id`, order kept.
pub open spec fn without_id(s: Seq<ProviderView>, id: Seq<char>) -> Seq<ProviderView>
    decreases s.len(),
{
    if s.len() == 0 {
        Seq::empty()
    } else {
        let rest = without_id(s.drop_last(), id);
        if s.last().id == id {
            rest
        } else {
            rest.push(s.last())
        }
    }
}

/// Some provider in `s` has id `id`.
pub open spec fn has_id(s: Seq<ProviderView>, id: Seq<char>) -> bool {
    exists|i: int| 0 <= i < s.len() && (#[trigger] s[i]).id == id
}

/// Number of providers in `s` with id `id`.
pub open spec fn count_id(s: Seq<ProviderView>, id: Seq<char>) -> nat
    decreases s.len(),
{
    if s.len() == 0 {
        0
    } else {
        count_id(s.drop_last(), id) + if s.last().id == id { 1nat } else { 0nat }
    }
}

// ---------------------------------------------------------------------------
// Setting a default
// ---------------------------------------------------------------------------

/// The message for an unknown setting name.
pub open spec fn unknown_setting_message(key: Seq<char>) -> Seq<char> {
    "Unknown setting: "@ + key
        + ". Valid settings: editor, secrets_path, cache_ttl, default_provider, max_versions, keychain_cache"@
}

/// The configuration with defaults `d`.
pub open spec fn with_defaults(c: ConfigView, d: DefaultsView) -> ConfigView {
    ConfigView { defaults: Some(d), providers: c.providers }
}

/// What `set_default(key, value)` makes of configuration `c`, or the error it reports.
pub open spec fn spec_set_default(c: ConfigView, key: Seq<char>, value: Seq<char>) -> Result<
    ConfigView,
    Seq<char>,
> {
    let d = defaults_or_empty(c);
    if key == "editor"@ {
        Ok(with_defaults(c, DefaultsView { editor: Some(value), ..d }))
    } else if key == "secrets_path"@ {
        Ok(with_defaults(c, DefaultsView { secrets_path: Some(value), ..d }))
    } else if key == "cache_ttl"@ {
        match parse_unsigned(value, u64::MAX as nat) {
            Some(n) => Ok(with_defaults(c, DefaultsView { cache_ttl: Some(n as u64), ..d })),
            None => Err("Invalid number for cache_ttl"@),
        }
    } else if key == "default_provider"@ {
        Ok(with_defaults(c, DefaultsView { default_provider: Some(value), ..d }))
    } else if key == "max_versions"@ {
        match parse_unsigned(value, u32::MAX as nat) {
            Some(n) => if n == 0 {
                Err("max_versions must be at least 1"@)
            } else {
                Ok(with_defaults(c, DefaultsView { max_versions: Some(n as u32), ..d }))
            },
            None => Err("Invalid number for max_versions"@),
        }
    } else if key == "keychain_cache"@ {
        match parse_bool(value) {
            Some(b) => Ok(with_defaults(c, DefaultsView { keychain_cache: Some(b), ..d })),
            None => Err("Invalid boolean for keychain_cache (use true/false)"@),
        }
    } else {
        Err(unknown_setting_message(key))
    }
}

/// The text `get_default(key)` reports, or the error.
pub open spec fn spec_get_default(
    c: ConfigView,
    key: Seq<char>,
    editor_env: Option<Seq<char>>,
    home: Option<Seq<char>>,
) -> Result<Seq<char>, Seq<char>> {
    if key == "editor"@ {
        Ok(spec_editor(c, editor_env))
    } else if key == "secrets_path"@ {
        Ok(spec_secrets_path(c, home))
    } else if key == "cache_ttl"@ {
        Ok(decimal(spec_cache_ttl(c) as nat))
    } else if key == "default_provider"@ {
        Ok(
            match defaults_or_empty(c).default_provider {
                Some(p) => p,
                None => "(not set)"@,
            },
        )
    } else if key == "max_versions"@ {
        Ok(
            match spec_max_versions(c) {
                Some(m) => decimal(m as nat),
                None => "unlimited"@,
            },
        )
    } else if key == "keychain_cache"@ {
        Ok(bool_text(spec_keychain_cache(c)))
    } else {
        Err(unknown_setting_message(key))
    }
}

// ---------------------------------------------------------------------------
// Where the configuration file is looked for
// ---------------------------------------------------------------------------

/// `~/.config/jaws/jaws.hcl`, when the home directory is known.
pub open spec fn spec_xdg_config_path(home: Option<Seq<char>>) -> Option<Seq<char>> {
    match home {
        Some(h) => Some(join(h, ".config/jaws/jaws.hcl"@)),
        None => None,
    }
}

/// The platform configuration directory's `jaws/jaws.hcl`, kept only when it is
/// not the same path as the XDG one.
pub open spec fn spec_native_config_path(
    home: Option<Seq<char>>,
    config: Option<Seq<char>>,
) -> Option<Seq<char>> {
    match config {
        Some(c) => {
            let n = join(c, "jaws/jaws.hcl"@);
            match spec_xdg_config_path(home) {
                Some(x) => if same_path(x, n) {
                    None
                } else {
                    Some(n)
                },
                None => Some(n),
            }
        },
        None => None,
    }
}

/// Append the value of `o` to `s` when there is one.
pub open spec fn push_some(s: Seq<Seq<char>>, o: Option<Seq<char>>) -> Seq<Seq<char>> {
    match o {
        Some(v) => s.push(v),
        None => s,
    }
}

/// The directory `d` joined with `jaws/jaws.hcl`, when `d` is known.
pub open spec fn jaws_hcl_in(d: Option<Seq<char>>) -> Option<Seq<char>> {
    match d {
        Some(p) => Some(join(p, "jaws/jaws.hcl"@)),
        None => None,
    }
}

/// The configuration file search paths, highest priority first.
pub open spec fn spec_search_paths(
    home: Option<Seq<char>>,
    config: Option<Seq<char>>,
    data: Option<Seq<char>>,
) -> Seq<Seq<char>> {
    let s0 = seq!["jaws.hcl"@];
    let s1 = push_some(s0, spec_xdg_config_path(home));
    let s2 = push_some(s1, spec_native_config_path(home, config));
    let s3 = push_some(s2, jaws_hcl_in(data));
    push_some(s3, jaws_hcl_in(home))
}

/// The default configuration path: the XDG one, else `jaws.hcl`.
pub open spec fn spec_default_config_path(home: Option<Seq<char>>) -> Seq<char> {
    match spec_xdg_config_path(home) {
        Some(p) => p,
        None => "jaws.hcl"@,
    }
}

// ---------------------------------------------------------------------------
// Implementation
// ---------------------------------------------------------------------------

/// Clone an optional string, keeping its value.
pub(crate) fn clone_opt(o: &Option<String>) -> (r: Option<String>)
    ensures
        r == *o,
        opt_view(r) == opt_view(*o),
{
    match o {
        Some(s) => Some(s.clone()),
        None => None,
    }
}

/// A string with the text of a literal.
pub(crate) fn owned(s: &str) -> (r: String)
    ensures
        r@ == s@,
{
    let v = chars_of(s);
    string_from(v.as_slice())
}

impl Defaults {
    /// Defaults with nothing set.
    pub fn empty() -> (r: Defaults)
        ensures
            r@ == empty_defaults(),
    {
        Defaults {
            editor: None,
            secrets_path: None,
            cache_ttl: None,
            default_provider: None,
            max_versions: None,
            keychain_cache: None,
        }
    }
}

impl Default for Defaults {
    fn default() -> (r: Defaults)
        ensures
            r@ == empty_defaults(),
    {
        Defaults::empty()
    }
}

impl ProviderConfig {
    /// An AWS provider.
    pub fn new_aws(id: String, profile: Option<String>, region: Option<String>) -> (r: Self)
        ensures
            r.id == id,
            r@.kind == "aws"@,
            r.profile == profile,
            r.region == region,
            r.vault is None,
            r.organization is None,
            r.token_env is None,
            r.project is None,
    {
        ProviderConfig {
            id,
            kind: owned("aws"),
            profile,
            region,
            vault: None,
            organization: None,
            token_env: None,
            project: None,
        }
    }

    /// A 1Password provider.
    pub fn new_onepassword(id: String, vault: Option<String>, token_env: Option<String>) -> (r:
        Self)
        ensures
            r.id == id,
            r@.kind == "onepassword"@,
            r.profile is None,
            r.region is None,
            r.vault == vault,
            r.organization is None,
            r.token_env == token_env,
            r.project is None,
    {
        ProviderConfig {
            id,
            kind: owned("onepassword"),
            profile: None,
            region: None,
            vault,
            organization: None,
            token_env,
            project: None,
        }
    }

    /// A Bitwarden provider; its project ID is kept in the `vault` field.
    pub fn new_bitwarden(
        id: String,
        project_id: Option<String>,
        organization_id: Option<String>,
        token_env: Option<String>,
    ) -> (r: Self)
        ensures
            r.id == id,
            r@.kind == "bw"@,
            r.profile is None,
            r.region is None,
            r.vault == project_id,
            r.organization == organization_id,
            r.token_env == token_env,
            r.project is None,
    {
        ProviderConfig {
            id,
            kind: owned("bw"),
            profile: None,
            region: None,
            vault: project_id,
            organization: organization_id,
            token_env,
            project: None,
        }
    }

    /// A GCP Secret Manager provider.
    pub fn new_gcp(id: String, project_id: Option<String>) -> (r: Self)
        ensures
            r.id == id,
            r@.kind == "gcp"@,
            r.profile is None,
            r.region is None,
            r.vault is None,
            r.organization is None,
            r.token_env is None,
            r.project == project_id,
    {
        ProviderConfig {
            id,
            kind: owned("gcp"),
            profile: None,
            region: None,
            vault: None,
            organization: None,
            token_env: None,
            project: project_id,
        }
    }
}

proof fn lemma_without_id_push(s: Seq<ProviderView>, i: int, id: Seq<char>)
    requires
        0 <= i < s.len(),
    ensures
        without_id(s.subrange(0, i + 1), id) == if s[i].id == id {
            without_id(s.subrange(0, i), id)
        } else {
            without_id(s.subrange(0, i), id).push(s[i])
        },
{
    assert(s.subrange(0, i + 1).drop_last() =~= s.subrange(0, i));
}

impl Config {
    /// A configuration with no defaults and no providers.
    pub fn empty() -> (r: Config)
        ensures
            r@.defaults is None,
            r@.providers.len() == 0,
    {
        Config { defaults: None, providers: Vec::new() }
    }

    /// The editor, given the value of `$EDITOR` (if set).
    pub fn editor_with(&self, editor_env: Option<String>) -> (r: String)
        ensures
            r@ == spec_editor(self@, opt_view(editor_env)),
    {
        match &self.defaults {
            Some(d) => match &d.editor {
                Some(e) => return e.clone(),
                None => {},
            },
            None => {},
        }
        match editor_env {
            Some(e) => e,
            None => owned("vi"),
        }
    }

    /// The secrets directory, given the home directory.
    pub fn secrets_path_in(&self, home: &Option<String>) -> (r: String)
        ensures
            r@ == spec_secrets_path(self@, opt_view(*home)),
    {
        match &self.defaults {
            Some(d) => match &d.secrets_path {
                Some(p) => return expand_tilde_in(p.as_str(), home),
                None => {},
            },
            None => {},
        }
        owned("./.secrets")
    }

    /// The secrets directory (`~` expanded with the home directory the environment reports).
    pub fn secrets_path(&self) -> (r: String)
        ensures
            exists|h: Option<Seq<char>>| r@ == #[trigger] spec_secrets_path(self@, h),
    {
        let home = home_dir();
        let r = self.secrets_path_in(&home);
        assert(r@ == spec_secrets_path(self@, opt_view(home)));
        r
    }

    /// The cache time-to-live in seconds.
    pub fn cache_ttl(&self) -> (r: u64)
        ensures
            r == spec_cache_ttl(self@),
    {
        match &self.defaults {
            Some(d) => match d.cache_ttl {
                Some(t) => t,
                None => DEFAULT_CACHE_TTL,
            },
            None => DEFAULT_CACHE_TTL,
        }
    }

    /// The default provider, if set.
    pub fn default_provider(&self) -> (r: Option<String>)
        ensures
            opt_view(r) == defaults_or_empty(self@).default_provider,
    {
        match &self.defaults {
            Some(d) => clone_opt(&d.default_provider),
            None => None,
        }
    }

    /// The maximum number of versions kept per secret.
    pub fn max_versions(&self) -> (r: Option<u32>)
        ensures
            r == spec_max_versions(self@),
    {
        match &self.defaults {
            Some(d) => match d.max_versions {
                Some(m) => Some(m),
                None => Some(DEFAULT_MAX_VERSIONS),
            },
            None => Some(DEFAULT_MAX_VERSIONS),
        }
    }

    /// Whether decrypted credentials are cached in the OS keychain.
    pub fn keychain_cache(&self) -> (r: bool)
        ensures
            r == spec_keychain_cache(self@),
    {
        match &self.defaults {
            Some(d) => match d.keychain_cache {
                Some(b) => b,
                None => true,
            },
            None => true,
        }
    }

    /// The database file, given the home directory.
    pub fn db_path_in(&self, home: &Option<String>) -> (r: String)
        ensures
            r@ == spec_db_path(self@, opt_view(*home)),
    {
        let s = self.secrets_path_in(home);
        join_path(s.as_str(), "jaws.db")
    }

    /// The database file, `jaws.db` in the secrets directory.
    pub fn db_path(&self) -> (r: String)
        ensures
            exists|h: Option<Seq<char>>| r@ == #[trigger] spec_db_path(self@, h),
    {
        let home = home_dir();
        let r = self.db_path_in(&home);
        assert(r@ == spec_db_path(self@, opt_view(home)));
        r
    }

    /// Change one default setting. Whatever the outcome, the configuration has
    /// defaults afterwards (empty ones are put in place first when it had none).
    pub fn set_default(&mut self, key: &str, value: &str) -> (r: Result<(), String>)
        ensures
            match r {
                Ok(()) => spec_set_default(old(self)@, key@, value@) == Ok::<ConfigView, Seq<char>>(final(self)@),
                Err(e) => {
                    &&& spec_set_default(old(self)@, key@, value@) == Err::<ConfigView, Seq<char>>(e@)
                    &&& final(self)@ == with_defaults(old(self)@, defaults_or_empty(old(self)@))
                },
            },
    {
        let mut d = match self.defaults.take() {
            Some(d) => d,
            None => Defaults::empty(),
        };
        let ghost d0 = d@;
        assert(d0 == defaults_or_empty(old(self)@));
        let mut result: Result<(), String> = Ok(());
        if str_eq(key, "editor") {
            d.editor = Some(owned(value));
        } else if str_eq(key, "secrets_path") {
            d.secrets_path = Some(owned(value));
        } else if str_eq(key, "cache_ttl") {
            let v = chars_of(value);
            match parse_unsigned_chars(v.as_slice(), u64::MAX) {
                Some(n) => {
                    d.cache_ttl = Some(n);
                },
                None => {
                    result = Err(owned("Invalid number for cache_ttl"));
                },
            }
        } else if str_eq(key, "default_provider") {
            d.default_provider = Some(owned(value));
        } else if str_eq(key, "max_versions") {
            let v = chars_of(value);
            match parse_unsigned_chars(v.as_slice(), 4294967295u64) {
                Some(n) => {
                    if n == 0 {
                        result = Err(owned("max_versions must be at least 1"));
                    } else {
                        d.max_versions = Some(n as u32);
                    }
                },
                None => {
                    result = Err(owned("Invalid number for max_versions"));
                },
            }
        } else if str_eq(key, "keychain_cache") {
            let v = chars_of(value);
            match parse_bool_chars(v.as_slice()) {
                Some(b) => {
                    d.keychain_cache = Some(b);
                },
                None => {
                    result = Err(owned("Invalid boolean for keychain_cache (use true/false)"));
                },
            }
        } else {
            let mut m: Vec<char> = Vec::new();
            push_str(&mut m, "Unknown setting: ");
            push_str(&mut m, key);
            push_str(
                &mut m,
                ". Valid settings: editor, secrets_path, cache_ttl, default_provider, max_versions, keychain_cache",
            );
            result = Err(string_from(m.as_slice()));
        }
        self.defaults = Some(d);
        result
    }

    /// The value of one default setting as text, given `$EDITOR` and the home directory.
    pub fn get_default_in(&self, key: &str, editor_env: Option<String>, home: &Option<String>) -> (r:
        Result<String, String>)
        ensures
            match r {
                Ok(s) => spec_get_default(self@, key@, opt_view(editor_env), opt_view(*home))
                    == Ok::<Seq<char>, Seq<char>>(s@),
                Err(e) => spec_get_default(self@, key@, opt_view(editor_env), opt_view(*home))
                    == Err::<Seq<char>, Seq<char>>(e@),
            },
    {
        if str_eq(key, "editor") {
            Ok(self.editor_with(editor_env))
        } else if str_eq(key, "secrets_path") {
            Ok(self.secrets_path_in(home))
        } else if str_eq(key, "cache_ttl") {
            Ok(decimal_string(self.cache_ttl()))
        } else if str_eq(key, "default_provider") {
            match self.default_provider() {
                Some(p) => Ok(p),
                None => Ok(owned("(not set)")),
            }
        } else if str_eq(key, "max_versions") {
            match self.max_versions() {
                Some(m) => Ok(decimal_string(m as u64)),
                None => Ok(owned("unlimited")),
            }
        } else if str_eq(key, "keychain_cache") {
            if self.keychain_cache() {
                Ok(owned("true"))
            } else {
                Ok(owned("false"))
            }
        } else {
            let mut m: Vec<char> = Vec::new();
            push_str(&mut m, "Unknown setting: ");
            push_str(&mut m, key);
            push_str(
                &mut m,
                ". Valid settings: editor, secrets_path, cache_ttl, default_provider, max_versions, keychain_cache",
            );
            Err(string_from(m.as_slice()))
        }
    }

    /// The value of one default setting as text, given `$EDITOR`; the home directory
    /// is the one the environment reports.
    pub fn get_default(&self, key: &str, editor_env: Option<String>) -> (r: Result<String, String>)
        ensures
            exists|h: Option<Seq<char>>|
                match r {
                    Ok(s) => #[trigger] spec_get_default(self@, key@, opt_view(editor_env), h)
                        == Ok::<Seq<char>, Seq<char>>(s@),
                    Err(e) => spec_get_default(self@, key@, opt_view(editor_env), h) == Err::<
                        Seq<char>,
                        Seq<char>,
                    >(e@),
                },
    {
        let home = home_dir();
        let ghost ev = opt_view(editor_env);
        let r = self.get_default_in(key, editor_env, &home);
        assert(match r {
            Ok(s) => spec_get_default(self@, key@, ev, opt_view(home)) == Ok::<Seq<char>, Seq<char>>(s@),
            Err(e) => spec_get_default(self@, key@, ev, opt_view(home)) == Err::<Seq<char>, Seq<char>>(e@),
        });
        r
    }

    /// Drop every provider whose id is `id`, keeping the order of the others.
    fn retain_other_ids(&mut self, id: &str)
        ensures
            final(self)@.defaults == old(self)@.defaults,
            final(self)@.providers == without_id(old(self)@.providers, id@),
    {
        let mut old_list: Vec<ProviderConfig> = Vec::new();
        std::mem::swap(&mut old_list, &mut self.providers);
        let ghost s = provider_views(old_list@);
        let ghost n = old_list@.len();
        let mut kept: Vec<ProviderConfig> = Vec::new();
        let ghost mut i: int = 0;
        while old_list.len() > 0
            invariant
                0 <= i <= n,
                n == s.len(),
                old_list@.len() == n - i,
                forall|j: int| 0 <= j < old_list@.len() ==> (#[trigger] old_list@[j])@ == s[i + j],
                provider_views(kept@) == without_id(s.subrange(0, i), id@),
            decreases old_list@.len(),
        {
            let p = old_list.remove(0);
            assert(p@ == s[i]);
            proof {
                lemma_without_id_push(s, i, id@);
            }
            let same = str_eq(p.id.as_str(), id);
            if !same {
                kept.push(p);
                assert(provider_views(kept@) =~= without_id(s.subrange(0, i), id@).push(s[i]));
            }
            proof {
                i = i + 1;
                assert forall|j: int| 0 <= j < old_list@.len() implies (#[trigger] old_list@[j])@
                    == s[i + j] by {}
            }
        }
        assert(s.subrange(0, n as int) =~= s);
        self.providers = kept;
    }

    /// Add a provider, replacing any existing provider with the same id; it goes last.
    pub fn add_provider(&mut self, provider: ProviderConfig)
        ensures
            final(self)@.defaults == old(self)@.defaults,
            final(self)@.providers == without_id(old(self)@.providers, provider@.id).push(
                provider@,
            ),
    {
        self.retain_other_ids(provider.id.as_str());
        self.providers.push(provider);
        assert(final(self)@.providers =~= without_id(old(self)@.providers, provider@.id).push(
            provider@,
        ));
    }

    /// Remove every provider with id `id`; true when one was removed.
    pub fn remove_provider(&mut self, id: &str) -> (r: bool)
        ensures
            final(self)@.defaults == old(self)@.defaults,
            final(self)@.providers == without_id(old(self)@.providers, id@),
            r == has_id(old(self)@.providers, id@),
    {
        let before = self.providers.len();
        self.retain_other_ids(id);
        proof {
            lemma_without_id_len(old(self)@.providers, id@);
        }
        self.providers.len() < before
    }
}

/// The description of each configuration location offered for a new file.
pub open spec fn spec_location_options(
    home: Option<Seq<char>>,
    config: Option<Seq<char>>,
    data: Option<Seq<char>>,
) -> Seq<(Seq<char>, Seq<char>)> {
    let s0 = Seq::<(Seq<char>, Seq<char>)>::empty();
    let s1 = match spec_xdg_config_path(home) {
        Some(p) => s0.push((p, "~/.config/jaws/ (Recommended)"@)),
        None => s0,
    };
    let s2 = match spec_native_config_path(home, config) {
        Some(p) => s1.push((p, "Platform config directory"@)),
        None => s1,
    };
    let s3 = match jaws_hcl_in(data) {
        Some(p) => s2.push((p, "XDG data directory"@)),
        None => s2,
    };
    let s4 = match jaws_hcl_in(home) {
        Some(p) => s3.push((p, "Home directory"@)),
        None => s3,
    };
    s4.push(("jaws.hcl"@, "Current directory"@))
}

/// The views of a list of strings.
pub open spec fn string_views(v: Seq<String>) -> Seq<Seq<char>> {
    v.map_values(|s: String| s@)
}

/// The views of a list of string pairs.
pub open spec fn pair_views(v: Seq<(String, String)>) -> Seq<(Seq<char>, Seq<char>)> {
    v.map_values(|p: (String, String)| (p.0@, p.1@))
}

/// `dir` joined with `jaws/jaws.hcl`, when `dir` is known.
fn jaws_hcl_path(dir: &Option<String>) -> (r: Option<String>)
    ensures
        opt_view(r) == jaws_hcl_in(opt_view(*dir)),
{
    match dir {
        Some(d) => Some(join_path(d.as_str(), "jaws/jaws.hcl")),
        None => None,
    }
}

impl Config {
    /// `~/.config/jaws/jaws.hcl`, given the home directory.
    pub fn xdg_config_path_in(home: &Option<String>) -> (r: Option<String>)
        ensures
            opt_view(r) == spec_xdg_config_path(opt_view(*home)),
    {
        match home {
            Some(h) => Some(join_path(h.as_str(), ".config/jaws/jaws.hcl")),
            None => None,
        }
    }

    /// The platform configuration file, unless it is the same path as the XDG one.
    fn native_config_path_in(home: &Option<String>, config: &Option<String>) -> (r: Option<String>)
        ensures
            opt_view(r) == spec_native_config_path(opt_view(*home), opt_view(*config)),
    {
        match config {
            Some(c) => {
                let n = join_path(c.as_str(), "jaws/jaws.hcl");
                match Config::xdg_config_path_in(home) {
                    Some(x) => {
                        if paths_equal(x.as_str(), n.as_str()) {
                            None
                        } else {
                            Some(n)
                        }
                    },
                    None => Some(n),
                }
            },
            None => None,
        }
    }

    /// The configuration file search paths, highest priority first, given the
    /// home, configuration and data directories.
    pub fn search_paths_in(home: &Option<String>, config: &Option<String>, data: &Option<String>) -> (r:
        Vec<String>)
        ensures
            string_views(r@) == spec_search_paths(opt_view(*home), opt_view(*config), opt_view(*data)),
    {
        let mut v: Vec<String> = Vec::new();
        v.push(owned("jaws.hcl"));
        let ghost g0 = string_views(v@);
        assert(g0 =~= seq!["jaws.hcl"@]);
        let p0 = Config::xdg_config_path_in(home);
        let p1 = Config::native_config_path_in(home, config);
        let p2 = jaws_hcl_path(data);
        let p3 = jaws_hcl_path(home);
        let ghost want = spec_search_paths(opt_view(*home), opt_view(*config), opt_view(*data));
        let ghost s1 = push_some(g0, opt_view(p0));
        let ghost s2 = push_some(s1, opt_view(p1));
        let ghost s3 = push_some(s2, opt_view(p2));
        let ghost s4 = push_some(s3, opt_view(p3));
        assert(want == s4);
        match p0 {
            Some(p) => v.push(p),
            None => {},
        }
        assert(string_views(v@) =~= s1);
        match p1 {
            Some(p) => v.push(p),
            None => {},
        }
        assert(string_views(v@) =~= s2);
        match p2 {
            Some(p) => v.push(p),
            None => {},
        }
        assert(string_views(v@) =~= s3);
        match p3 {
            Some(p) => v.push(p),
            None => {},
        }
        assert(string_views(v@) =~= s4);
        v
    }

    /// The configuration file search paths for the directories the environment reports.
    pub fn get_config_search_paths() -> (r: Vec<String>)
        ensures
            exists|h: Option<Seq<char>>, c: Option<Seq<char>>, d: Option<Seq<char>>|
                string_views(r@) == #[trigger] spec_search_paths(h, c, d),
    {
        let home = home_dir();
        let config = config_dir();
        let data = data_dir();
        let r = Config::search_paths_in(&home, &config, &data);
        assert(string_views(r@) == spec_search_paths(opt_view(home), opt_view(config), opt_view(data)));
        r
    }

    /// The locations offered for a new configuration file, recommended first, each
    /// with its description, given the home, configuration and data directories.
    pub fn location_options_in(home: &Option<String>, config: &Option<String>, data: &Option<String>) -> (r:
        Vec<(String, String)>)
        ensures
            pair_views(r@) == spec_location_options(opt_view(*home), opt_view(*config), opt_view(*data)),
    {
        let ghost h = opt_view(*home);
        let ghost c = opt_view(*config);
        let ghost d = opt_view(*data);
        let mut v: Vec<(String, String)> = Vec::new();
        let ghost s0 = Seq::<(Seq<char>, Seq<char>)>::empty();
        let ghost s1 = match spec_xdg_config_path(h) {
            Some(p) => s0.push((p, "~/.config/jaws/ (Recommended)"@)),
            None => s0,
        };
        let ghost s2 = match spec_native_config_path(h, c) {
            Some(p) => s1.push((p, "Platform config directory"@)),
            None => s1,
        };
        let ghost s3 = match jaws_hcl_in(d) {
            Some(p) => s2.push((p, "XDG data directory"@)),
            None => s2,
        };
        let ghost s4 = match jaws_hcl_in(h) {
            Some(p) => s3.push((p, "Home directory"@)),
            None => s3,
        };
        match Config::xdg_config_path_in(home) {
            Some(p) => v.push((p, owned("~/.config/jaws/ (Recommended)"))),
            None => {},
        }
        assert(pair_views(v@) =~= s1);
        match Config::native_config_path_in(home, config) {
            Some(p) => v.push((p, owned("Platform config directory"))),
            None => {},
        }
        assert(pair_views(v@) =~= s2);
        match jaws_hcl_path(data) {
            Some(p) => v.push((p, owned("XDG data directory"))),
            None => {},
        }
        assert(pair_views(v@) =~= s3);
        match jaws_hcl_path(home) {
            Some(p) => v.push((p, owned("Home directory"))),
            None => {},
        }
        assert(pair_views(v@) =~= s4);
        v.push((owned("jaws.hcl"), owned("Current directory")));
        assert(pair_views(v@) =~= s4.push(("jaws.hcl"@, "Current directory"@)));
        v
    }

    /// The locations offered for a new configuration file, for the directories the
    /// environment reports.
    pub fn get_config_location_options() -> (r: Vec<(String, String)>)
        ensures
            exists|h: Option<Seq<char>>, c: Option<Seq<char>>, d: Option<Seq<char>>|
                pair_views(r@) == #[trigger] spec_location_options(h, c, d),
    {
        let home = home_dir();
        let config = config_dir();
        let data = data_dir();
        let r = Config::location_options_in(&home, &config, &data);
        assert(pair_views(r@) == spec_location_options(opt_view(home), opt_view(config), opt_view(data)));
        r
    }

    /// The default configuration path, given the home directory.
    pub fn default_config_path_in(home: &Option<String>) -> (r: String)
        ensures
            r@ == spec_default_config_path(opt_view(*home)),
    {
        match Config::xdg_config_path_in(home) {
            Some(p) => p,
            None => owned("jaws.hcl"),
        }
    }

    /// The default configuration path (`~/.config/jaws/jaws.hcl`, else `jaws.hcl`).
    pub fn default_config_path() -> (r: String)
        ensures
            exists|h: Option<Seq<char>>| r@ == #[trigger] spec_default_config_path(h),
    {
        let home = home_dir();
        let r = Config::default_config_path_in(&home);
        assert(r@ == spec_default_config_path(opt_view(home)));
        r
    }

    /// The first of `paths` whose flag in `exists` is set.
    pub fn first_existing(paths: &Vec<String>, exists: &Vec<bool>) -> (r: Option<String>)
        requires
            paths@.len() == exists@.len(),
        ensures
            match r {
                Some(p) => exists|i: int|
                    0 <= i < paths@.len() && #[trigger] exists@[i] && p@ == paths@[i]@ && forall|
                        j: int,
                    | 0 <= j < i ==> !exists@[j],
                None => forall|i: int| 0 <= i < exists@.len() ==> !#[trigger] exists@[i],
            },
    {
        let mut i: usize = 0;
        while i < paths.len()
            invariant
                paths@.len() == exists@.len(),
                i <= paths@.len(),
                forall|j: int| 0 <= j < i ==> !#[trigger] exists@[j],
            decreases paths@.len() - i,
        {
            if exists[i] {
                return Some(paths[i].clone());
            }
            i = i + 1;
        }
        None
    }

    /// The first configuration search path at which a file exists.
    pub fn find_existing_config() -> (r: Option<String>)
        ensures
            r matches Some(p) ==> exists|h: Option<Seq<char>>, c: Option<Seq<char>>, d: Option<
                Seq<char>,
            >| #[trigger] spec_search_paths(h, c, d).contains(p@),
    {
        let paths = Config::get_config_search_paths();
        let mut flags: Vec<bool> = Vec::new();
        let mut i: usize = 0;
        while i < paths.len()
            invariant
                i <= paths@.len(),
                flags@.len() == i,
            decreases paths@.len() - i,
        {
            flags.push(path_exists(paths[i].as_str()));
            i = i + 1;
        }
        let r = Config::first_existing(&paths, &flags);
        proof {
            if r is Some {
                let p = r->0;
                let k = choose|k: int| 0 <= k < paths@.len() && #[trigger] flags@[k] && p@ == paths@[k]@
                    && forall|j: int| 0 <= j < k ==> !flags@[j];
                assert(string_views(paths@)[k] == p@);
                assert(string_views(paths@).contains(p@));
            }
        }
        r
    }
}

/// Removing by id shortens the sequence exactly when the id occurs.
pub proof fn lemma_without_id_len(s: Seq<ProviderView>, id: Seq<char>)
    ensures
        without_id(s, id).len() <= s.len(),
        (without_id(s, id).len() < s.len()) == has_id(s, id),
        without_id(s, id).len() + count_id(s, id) == s.len(),
    decreases s.len(),
{
    if s.len() > 0 {
        lemma_without_id_len(s.drop_last(), id);
        let t = s.drop_last();
        if has_id(s, id) {
            let k = choose|k: int| 0 <= k < s.len() && (#[trigger] s[k]).id == id;
            if k < s.len() - 1 {
                assert(t[k] == s[k]);
            }
        }
        if has_id(t, id) {
            let k = choose|k: int| 0 <= k < t.len() && (#[trigger] t[k]).id == id;
            assert(s[k] == t[k]);
        }
    } else {
        assert(!has_id(s, id));
    }
}

} // verus!

verus! {

// ---------------------------------------------------------------------------
// Laws
// ---------------------------------------------------------------------------

/// No provider with id `id` is left after removing that id.
pub proof fn lemma_without_id_count(s: Seq<ProviderView>, id: Seq<char>)
    ensures
        count_id(without_id(s, id), id) == 0,
        !has_id(without_id(s, id), id),
    decreases s.len(),
{
    if s.len() > 0 {
        lemma_without_id_count(s.drop_last(), id);
        let r = without_id(s.drop_last(), id);
        if s.last().id != id {
            assert(r.push(s.last()).drop_last() =~= r);
        }
    }
    lemma_without_id_len(without_id(s, id), id);
}

/// Removing an id twice is the same as removing it once.
pub proof fn lemma_without_id_idempotent(s: Seq<ProviderView>, id: Seq<char>)
    ensures
        without_id(without_id(s, id), id) == without_id(s, id),
    decreases s.len(),
{
    lemma_without_id_count(s, id);
    lemma_without_id_len(without_id(s, id), id);
    lemma_without_id_no_id(without_id(s, id), id);
}

/// Removing an id that does not occur changes nothing.
pub proof fn lemma_without_id_no_id(s: Seq<ProviderView>, id: Seq<char>)
    requires
        !has_id(s, id),
    ensures
        without_id(s, id) == s,
    decreases s.len(),
{
    if s.len() > 0 {
        let t = s.drop_last();
        assert(!has_id(t, id)) by {
            if has_id(t, id) {
                let k = choose|k: int| 0 <= k < t.len() && (#[trigger] t[k]).id == id;
                assert(s[k] == t[k]);
            }
        }
        lemma_without_id_no_id(t, id);
        assert(s.last() == s[s.len() - 1]);
        assert(t.push(s.last()) =~= s);
    }
}

/// After `add_provider(p)` exactly one provider has p's id, and it is `p`, placed last.
pub proof fn law_add_provider_unique(s: Seq<ProviderView>, p: ProviderView)
    ensures
        count_id(without_id(s, p.id).push(p), p.id) == 1,
        without_id(s, p.id).push(p).last() == p,
{
    lemma_without_id_count(s, p.id);
    assert(without_id(s, p.id).push(p).drop_last() =~= without_id(s, p.id));
}

/// Adding the same provider twice gives what adding it once gives.
pub proof fn law_add_provider_idempotent(s: Seq<ProviderView>, p: ProviderView)
    ensures
        without_id(without_id(s, p.id).push(p), p.id).push(p) == without_id(s, p.id).push(p),
{
    let r = without_id(s, p.id);
    assert(r.push(p).drop_last() =~= r);
    lemma_without_id_idempotent(s, p.id);
}

/// Removing a provider just added gives what removing its id from the original gives.
pub proof fn law_remove_after_add(s: Seq<ProviderView>, p: ProviderView)
    ensures
        without_id(without_id(s, p.id).push(p), p.id) == without_id(s, p.id),
{
    let r = without_id(s, p.id);
    assert(r.push(p).drop_last() =~= r);
    lemma_without_id_idempotent(s, p.id);
}

/// After `remove_provider(id)` no provider has that id, and a second removal
/// reports that nothing was removed and changes nothing.
pub proof fn law_remove_provider(s: Seq<ProviderView>, id: Seq<char>)
    ensures
        !has_id(without_id(s, id), id),
        without_id(without_id(s, id), id) == without_id(s, id),
{
    lemma_without_id_count(s, id);
    lemma_without_id_idempotent(s, id);
}

/// The text that `get_default(key)` reports after `set_default(key, value)` succeeded.
pub open spec fn canonical_setting(key: Seq<char>, value: Seq<char>, home: Option<Seq<char>>) -> Seq<
    char,
> {
    if key == "secrets_path"@ {
        expand_tilde_with(value, home)
    } else if key == "cache_ttl"@ {
        decimal(parse_unsigned(value, u64::MAX as nat)->0)
    } else if key == "max_versions"@ {
        decimal(parse_unsigned(value, u32::MAX as nat)->0)
    } else {
        value
    }
}

/// Reading a setting back after setting it gives the value that was set (numbers in
/// their canonical decimal form, a secrets path with `~` expanded), and every other
/// setting reads as it did before.
pub proof fn law_get_after_set(
    c: ConfigView,
    key: Seq<char>,
    value: Seq<char>,
    other: Seq<char>,
    editor_env: Option<Seq<char>>,
    home: Option<Seq<char>>,
)
    requires
        spec_set_default(c, key, value) is Ok,
        other != key,
    ensures
        spec_get_default(spec_set_default(c, key, value)->Ok_0, key, editor_env, home) == Ok::<
            Seq<char>,
            Seq<char>,
        >(canonical_setting(key, value, home)),
        spec_get_default(spec_set_default(c, key, value)->Ok_0, other, editor_env, home)
            == spec_get_default(c, other, editor_env, home),
{
    reveal_strlit("editor");
    reveal_strlit("secrets_path");
    reveal_strlit("cache_ttl");
    reveal_strlit("default_provider");
    reveal_strlit("max_versions");
    reveal_strlit("keychain_cache");
}

/// A refused `set_default` leaves every setting reading as before.
pub proof fn law_failed_set_keeps_settings(
    c: ConfigView,
    key: Seq<char>,
    value: Seq<char>,
    any: Seq<char>,
    editor_env: Option<Seq<char>>,
    home: Option<Seq<char>>,
)
    requires
        spec_set_default(c, key, value) is Err,
    ensures
        spec_get_default(with_defaults(c, defaults_or_empty(c)), any, editor_env, home)
            == spec_get_default(c, any, editor_env, home),
{
}

} // verus!
