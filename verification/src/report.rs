//! What `status`, `list` and `config` (with no subcommand) print.

use vstd::prelude::*;
use crate::config::{
    provider_views, spec_cache_ttl, spec_keychain_cache, spec_max_versions, Config, ProviderView,
    defaults_or_empty,
};
use crate::text::{bool_text, chars_of, decimal, push_decimal, push_str, str_eq, string_from};
use crate::textops::{push_signed_decimal, signed_decimal, string_views};

verus! {

/// How a secret's working file stands against the database.
pub enum StatusEntry {
    /// A working file with no database row yet.
    New { provider_id: String, name: String },
    /// A working file that differs from its latest version.
    Modified { provider_id: String, name: String },
    /// A database row whose working file is missing.
    Orphan { provider_id: String, name: String },
    /// A version saved locally but not uploaded.
    Unpushed { provider_id: String, name: String, version: i32 },
    /// Nothing to do.
    Unchanged { provider_id: String, name: String },
}

/// The sections of the status report.
#[derive(Clone, Copy, PartialEq, Eq, Structural)]
pub enum Section {
    New,
    Modified,
    Unpushed,
    Orphan,
}

/// The line of an entry in its section, if it belongs to that section.
pub open spec fn entry_line(e: StatusEntry, s: Section) -> Option<Seq<char>> {
    match e {
        StatusEntry::New { provider_id, name } => if s == Section::New {
            Some("  + "@ + provider_id@ + "://"@ + name@)
        } else {
            None
        },
        StatusEntry::Modified { provider_id, name } => if s == Section::Modified {
            Some("  M "@ + provider_id@ + "://"@ + name@)
        } else {
            None
        },
        StatusEntry::Unpushed { provider_id, name, version } => if s == Section::Unpushed {
            Some("  ↑ "@ + provider_id@ + "://"@ + name@ + " (v"@ + signed_decimal(version as int) + ")"@)
        } else {
            None
        },
        StatusEntry::Orphan { provider_id, name } => if s == Section::Orphan {
            Some("  ? "@ + provider_id@ + "://"@ + name@)
        } else {
            None
        },
        StatusEntry::Unchanged { .. } => None,
    }
}

/// The lines of one section, in the order of the entries.
pub open spec fn section_lines(es: Seq<StatusEntry>, s: Section) -> Seq<Seq<char>>
    decreases es.len(),
{
    if es.len() == 0 {
        Seq::empty()
    } else {
        match entry_line(es.last(), s) {
            Some(l) => section_lines(es.drop_last(), s).push(l),
            None => section_lines(es.drop_last(), s),
        }
    }
}

/// How many entries are unchanged.
pub open spec fn unchanged_count(es: Seq<StatusEntry>) -> nat
    decreases es.len(),
{
    if es.len() == 0 {
        0
    } else {
        unchanged_count(es.drop_last()) + if es.last() is Unchanged { 1nat } else { 0 }
    }
}

/// The title of a section.
pub open spec fn section_title(s: Section) -> Seq<char> {
    match s {
        Section::New => "New (not yet saved — run `jaws save`):"@,
        Section::Modified => "Modified (working file differs from latest version):"@,
        Section::Unpushed => "Unpushed (saved locally, not yet uploaded — run `jaws push`):"@,
        Section::Orphan => "Orphan (DB row exists, working file missing — `jaws pull` to restore):"@,
    }
}

/// A section as printed: its title, its lines and a blank line; nothing when empty.
pub open spec fn section_block(es: Seq<StatusEntry>, s: Section) -> Seq<Seq<char>> {
    if section_lines(es, s).len() == 0 {
        Seq::empty()
    } else {
        seq![section_title(s)] + section_lines(es, s) + seq![Seq::empty()]
    }
}

/// The status report.
pub open spec fn spec_status_report(es: Seq<StatusEntry>, secrets_path: Seq<char>) -> Seq<Seq<char>> {
    let blocks = section_block(es, Section::New) + section_block(es, Section::Modified) + section_block(
        es,
        Section::Unpushed,
    ) + section_block(es, Section::Orphan);
    seq!["Secrets directory: "@ + secrets_path, Seq::empty()] + blocks + seq![
        if blocks.len() == 0 {
            "Clean — "@ + decimal(unchanged_count(es)) + " secret(s) unchanged."@
        } else {
            "("@ + decimal(unchanged_count(es)) + " unchanged)"@
        },
    ]
}

fn line_of(e: &StatusEntry, s: Section) -> (r: Option<String>)
    ensures
        match (r, entry_line(*e, s)) {
            (Some(a), Some(b)) => a@ == b,
            (None, None) => true,
            _ => false,
        },
{
    let (mark, pid, name, version): (&str, &String, &String, Option<i32>) = match e {
        StatusEntry::New { provider_id, name } => {
            if s != Section::New {
                return None;
            }
            ("  + ", provider_id, name, None)
        },
        StatusEntry::Modified { provider_id, name } => {
            if s != Section::Modified {
                return None;
            }
            ("  M ", provider_id, name, None)
        },
        StatusEntry::Unpushed { provider_id, name, version } => {
            if s != Section::Unpushed {
                return None;
            }
            ("  ↑ ", provider_id, name, Some(*version))
        },
        StatusEntry::Orphan { provider_id, name } => {
            if s != Section::Orphan {
                return None;
            }
            ("  ? ", provider_id, name, None)
        },
        StatusEntry::Unchanged { .. } => {
            return None;
        },
    };
    let mut v = chars_of(mark);
    push_str(&mut v, pid.as_str());
    push_str(&mut v, "://");
    push_str(&mut v, name.as_str());
    match version {
        Some(n) => {
            push_str(&mut v, " (v");
            push_signed_decimal(&mut v, n as i64);
            push_str(&mut v, ")");
        },
        None => {},
    }
    Some(string_from(v.as_slice()))
}

fn section_of(entries: &Vec<StatusEntry>, s: Section) -> (r: Vec<String>)
    ensures
        string_views(r@) == section_lines(entries@, s),
{
    let mut out: Vec<String> = Vec::new();
    let mut i: usize = 0;
    while i < entries.len()
        invariant
            i <= entries@.len(),
            string_views(out@) == section_lines(entries@.subrange(0, i as int), s),
        decreases entries@.len() - i,
    {
        proof {
            assert(entries@.subrange(0, i + 1).drop_last() =~= entries@.subrange(0, i as int));
        }
        let ghost before = string_views(out@);
        match line_of(&entries[i], s) {
            Some(l) => {
                out.push(l);
                assert(string_views(out@) =~= before.push(l@));
            },
            None => {},
        }
        i = i + 1;
    }
    assert(entries@.subrange(0, entries@.len() as int) =~= entries@);
    out
}

fn title_of(s: Section) -> (r: &'static str)
    ensures
        r@ == section_title(s),
{
    match s {
        Section::New => "New (not yet saved — run `jaws save`):",
        Section::Modified => "Modified (working file differs from latest version):",
        Section::Unpushed => "Unpushed (saved locally, not yet uploaded — run `jaws push`):",
        Section::Orphan => "Orphan (DB row exists, working file missing — `jaws pull` to restore):",
    }
}

fn push_line(out: &mut Vec<String>, line: String)
    ensures
        string_views(final(out)@) == string_views(old(out)@).push(line@),
{
    out.push(line);
    assert(string_views(final(out)@) =~= string_views(old(out)@).push(line@));
}

fn push_block(out: &mut Vec<String>, entries: &Vec<StatusEntry>, s: Section)
    ensures
        string_views(final(out)@) == string_views(old(out)@) + section_block(entries@, s),
{
    let lines = section_of(entries, s);
    if lines.len() == 0 {
        assert(string_views(final(out)@) =~= string_views(old(out)@) + section_block(entries@, s));
        return;
    }
    let ghost before = string_views(out@);
    push_line(out, string_from(chars_of(title_of(s)).as_slice()));
    let mut i: usize = 0;
    while i < lines.len()
        invariant
            i <= lines@.len(),
            string_views(out@) == before + seq![section_title(s)] + string_views(lines@).subrange(0, i as int),
        decreases lines@.len() - i,
    {
        let ghost prev = string_views(out@);
        push_line(out, string_from(chars_of(lines[i].as_str()).as_slice()));
        i = i + 1;
        assert(string_views(lines@).subrange(0, i as int) =~= string_views(lines@).subrange(0, i - 1).push(lines@[i - 1]@));
        assert(string_views(out@) =~= before + seq![section_title(s)] + string_views(lines@).subrange(0, i as int));
    }
    push_line(out, string_from(Vec::<char>::new().as_slice()));
    proof {
        assert(string_views(lines@).subrange(0, lines@.len() as int) =~= string_views(lines@));
        assert(string_views(out@) =~= before + section_block(entries@, s));
    }
}

/// The lines `status` prints for the entries of a secrets directory.
pub fn status_report(entries: &Vec<StatusEntry>, secrets_path: &str) -> (r: Vec<String>)
    ensures
        string_views(r@) == spec_status_report(entries@, secrets_path@),
{
    let mut out: Vec<String> = Vec::new();
    let mut h = chars_of("Secrets directory: ");
    push_str(&mut h, secrets_path);
    push_line(&mut out, string_from(h.as_slice()));
    push_line(&mut out, string_from(Vec::<char>::new().as_slice()));
    let ghost head = string_views(out@);
    assert(head.len() == 2);
    push_block(&mut out, entries, Section::New);
    push_block(&mut out, entries, Section::Modified);
    push_block(&mut out, entries, Section::Unpushed);
    push_block(&mut out, entries, Section::Orphan);
    let ghost blocks = section_block(entries@, Section::New) + section_block(entries@, Section::Modified)
        + section_block(entries@, Section::Unpushed) + section_block(entries@, Section::Orphan);
    assert(string_views(out@) =~= head + blocks);
    let mut count: u64 = 0;
    let mut i: usize = 0;
    while i < entries.len()
        invariant
            i <= entries@.len(),
            count == unchanged_count(entries@.subrange(0, i as int)),
            count <= i,
        decreases entries@.len() - i,
    {
        proof {
            assert(entries@.subrange(0, i + 1).drop_last() =~= entries@.subrange(0, i as int));
        }
        match &entries[i] {
            StatusEntry::Unchanged { .. } => {
                count = count + 1;
            },
            _ => {},
        }
        i = i + 1;
    }
    assert(entries@.subrange(0, entries@.len() as int) =~= entries@);
    let ghost before = string_views(out@);
    assert(before.len() == out@.len());
    if out.len() == 2 {
        assert(blocks.len() == 0);
        let mut v = chars_of("Clean — ");
        push_decimal(&mut v, count);
        push_str(&mut v, " secret(s) unchanged.");
        push_line(&mut out, string_from(v.as_slice()));
    } else {
        assert(blocks.len() != 0);
        let mut v = chars_of("(");
        push_decimal(&mut v, count);
        push_str(&mut v, " unchanged)");
        push_line(&mut out, string_from(v.as_slice()));
    }
    assert(string_views(out@) =~= spec_status_report(entries@, secrets_path@));
    out
}

/// A line of `list`: `{provider}://{name}`, with ` (modified)` when the working file was edited.
pub open spec fn spec_list_line(provider_id: Seq<char>, name: Seq<char>, modified: bool) -> Seq<char> {
    provider_id + "://"@ + name + if modified {
        " (modified)"@
    } else {
        Seq::empty()
    }
}

/// The line `list` prints for a secret.
pub fn list_line(provider_id: &str, name: &str, modified: bool) -> (r: String)
    ensures
        r@ == spec_list_line(provider_id@, name@, modified),
{
    let mut v = chars_of(provider_id);
    push_str(&mut v, "://");
    push_str(&mut v, name);
    if modified {
        push_str(&mut v, " (modified)");
    }
    assert(v@ =~= spec_list_line(provider_id@, name@, modified));
    string_from(v.as_slice())
}

/// Whether a secret of `provider_id` is listed under the provider filter.
pub fn passes_provider_filter(filter: Option<&str>, provider_id: &str) -> (r: bool)
    ensures
        r == match filter {
            Some(p) => p@ == provider_id@,
            None => true,
        },
{
    match filter {
        Some(p) => str_eq(p, provider_id),
        None => true,
    }
}

// ---------------------------------------------------------------------------
// The configuration summary
// ---------------------------------------------------------------------------

/// A `{prefix}{value}` line when the value is present.
pub open spec fn optional_line(prefix: Seq<char>, v: Option<Seq<char>>) -> Seq<Seq<char>> {
    match v {
        Some(x) => seq![prefix + x],
        None => Seq::empty(),
    }
}

/// The lines describing one provider.
pub open spec fn provider_summary(p: ProviderView) -> Seq<Seq<char>> {
    seq!["  "@ + p.id + " ("@ + p.kind + ")"@] + optional_line("    profile: "@, p.profile) + optional_line(
        "    region: "@,
        p.region,
    ) + optional_line("    vault: "@, p.vault) + optional_line("    token_env: "@, p.token_env)
}

/// The lines describing the providers, in order.
pub open spec fn providers_summary(ps: Seq<ProviderView>) -> Seq<Seq<char>>
    decreases ps.len(),
{
    if ps.len() == 0 {
        Seq::empty()
    } else {
        providers_summary(ps.drop_last()) + provider_summary(ps.last())
    }
}

/// What `config` shows: the file in use (if any), the settings (with the editor
/// and secrets directory as resolved), and the providers.
pub open spec fn spec_config_summary(
    c: crate::config::ConfigView,
    config_file: Option<Seq<char>>,
    editor: Seq<char>,
    secrets_path: Seq<char>,
) -> Seq<Seq<char>> {
    seq![
        match config_file {
            Some(p) => "Config file: "@ + p,
            None => "Config file: (using defaults, no config file found)"@,
        },
        Seq::empty(),
        "Settings:"@,
        "  editor: "@ + editor,
        "  secrets_path: "@ + secrets_path,
        "  cache_ttl: "@ + decimal(spec_cache_ttl(c) as nat) + "s"@,
        "  keychain_cache: "@ + bool_text(spec_keychain_cache(c)),
    ] + match spec_max_versions(c) {
        Some(m) => seq!["  max_versions: "@ + decimal(m as nat)],
        None => Seq::empty(),
    } + optional_line("  default_provider: "@, defaults_or_empty(c).default_provider) + seq![Seq::empty()]
        + if c.providers.len() == 0 {
        seq![
            "Providers: (none configured)"@,
            Seq::empty(),
            "Run 'jaws config init' to set up providers."@,
        ]
    } else {
        seq!["Providers:"@] + providers_summary(c.providers)
    }
}

fn push_optional(out: &mut Vec<String>, prefix: &str, v: &Option<String>)
    ensures
        string_views(final(out)@) == string_views(old(out)@) + optional_line(prefix@, match v {
            Some(x) => Some(x@),
            None => None,
        }),
{
    match v {
        Some(x) => {
            let mut l = chars_of(prefix);
            push_str(&mut l, x.as_str());
            let ghost lv = l@;
            push_line(out, string_from(l.as_slice()));
            assert(string_views(final(out)@) =~= string_views(old(out)@) + seq![lv]);
        },
        None => {
            assert(string_views(out@) =~= string_views(old(out)@) + Seq::<Seq<char>>::empty());
        },
    }
}

fn push_text(out: &mut Vec<String>, s: &str)
    ensures
        string_views(final(out)@) == string_views(old(out)@).push(s@),
{
    push_line(out, string_from(chars_of(s).as_slice()));
}

/// What `config` shows, given the configuration file in use (if any), and the
/// editor and secrets directory the configuration resolves to.
pub fn config_summary(config: &Config, config_file: Option<&str>, editor: &str, secrets_path: &str) -> (r: Vec<
    String,
>)
    ensures
        string_views(r@) == spec_config_summary(config@, match config_file {
            Some(p) => Some(p@),
            None => None,
        }, editor@, secrets_path@),
{
    proof {
        reveal_strlit("true");
        reveal_strlit("false");
    }
    let ghost cf = match config_file {
        Some(p) => Some(p@),
        None => None,
    };
    let mut out: Vec<String> = Vec::new();
    match config_file {
        Some(p) => {
            let mut l = chars_of("Config file: ");
            push_str(&mut l, p);
            push_line(&mut out, string_from(l.as_slice()));
        },
        None => push_text(&mut out, "Config file: (using defaults, no config file found)"),
    }
    push_line(&mut out, string_from(Vec::<char>::new().as_slice()));
    push_text(&mut out, "Settings:");
    let mut l = chars_of("  editor: ");
    push_str(&mut l, editor);
    push_line(&mut out, string_from(l.as_slice()));
    let mut l = chars_of("  secrets_path: ");
    push_str(&mut l, secrets_path);
    push_line(&mut out, string_from(l.as_slice()));
    let mut l = chars_of("  cache_ttl: ");
    push_decimal(&mut l, config.cache_ttl());
    push_str(&mut l, "s");
    push_line(&mut out, string_from(l.as_slice()));
    let mut l = chars_of("  keychain_cache: ");
    if config.keychain_cache() {
        push_str(&mut l, "true");
    } else {
        push_str(&mut l, "false");
    }
    push_line(&mut out, string_from(l.as_slice()));
    let ghost head = string_views(out@);
    assert(head =~= seq![
        match cf {
            Some(p) => "Config file: "@ + p,
            None => "Config file: (using defaults, no config file found)"@,
        },
        Seq::empty(),
        "Settings:"@,
        "  editor: "@ + editor@,
        "  secrets_path: "@ + secrets_path@,
        "  cache_ttl: "@ + decimal(spec_cache_ttl(config@) as nat) + "s"@,
        "  keychain_cache: "@ + bool_text(spec_keychain_cache(config@)),
    ]);
    match config.max_versions() {
        Some(m) => {
            let mut l = chars_of("  max_versions: ");
            push_decimal(&mut l, m as u64);
            push_line(&mut out, string_from(l.as_slice()));
        },
        None => {},
    }
    let ghost with_max = string_views(out@);
    assert(with_max =~= head + match spec_max_versions(config@) {
        Some(m) => seq!["  max_versions: "@ + decimal(m as nat)],
        None => Seq::<Seq<char>>::empty(),
    });
    let dp = config.default_provider();
    push_optional(&mut out, "  default_provider: ", &dp);
    push_line(&mut out, string_from(Vec::<char>::new().as_slice()));
    let ghost settings = string_views(out@);
    if config.providers.len() == 0 {
        push_text(&mut out, "Providers: (none configured)");
        push_line(&mut out, string_from(Vec::<char>::new().as_slice()));
        push_text(&mut out, "Run 'jaws config init' to set up providers.");
        assert(string_views(out@) =~= settings + seq![
            "Providers: (none configured)"@,
            Seq::empty(),
            "Run 'jaws config init' to set up providers."@,
        ]);
    } else {
        push_text(&mut out, "Providers:");
        let ghost ps = provider_views(config.providers@);
        let mut i: usize = 0;
        while i < config.providers.len()
            invariant
                i <= config.providers@.len(),
                ps == provider_views(config.providers@),
                string_views(out@) == settings + seq!["Providers:"@] + providers_summary(ps.subrange(0, i as int)),
            decreases config.providers@.len() - i,
        {
            proof {
                assert(ps.subrange(0, i + 1).drop_last() =~= ps.subrange(0, i as int));
            }
            let p = &config.providers[i];
            let ghost before = string_views(out@);
            let mut l = chars_of("  ");
            push_str(&mut l, p.id.as_str());
            push_str(&mut l, " (");
            push_str(&mut l, p.kind.as_str());
            push_str(&mut l, ")");
            let ghost lv = l@;
            push_line(&mut out, string_from(l.as_slice()));
            push_optional(&mut out, "    profile: ", &p.profile);
            push_optional(&mut out, "    region: ", &p.region);
            push_optional(&mut out, "    vault: ", &p.vault);
            push_optional(&mut out, "    token_env: ", &p.token_env);
            assert(string_views(out@) =~= before + provider_summary(ps[i as int]));
            i = i + 1;
        }
        assert(ps.subrange(0, ps.len() as int) =~= ps);
    }
    out
}

} // verus!
