//! Discovering providers during interactive setup: reading AWS profile files,
//! the picker items and what a picked item adds, and the answers to prompts.

use vstd::prelude::*;
use crate::config::{Config, ProviderConfig, provider_views};
use crate::paths::opt_view;
use crate::text::{
    chars_of, contains, find_from, has_prefix, has_suffix, is_first_occurrence_from,
    no_occurrence_from, occurs_at, push_all, push_str, slice_of, starts_with, ends_with, str_eq,
    string_from, to_lowercase, trim, trim_chars, unicode_lowercase,
};
use crate::textops::{replace_all, replace_chars, split_by, split_on, string_views, views};

verus! {

// ---------------------------------------------------------------------------
// Lines (what `str::lines` yields)
// ---------------------------------------------------------------------------

/// `s` without one trailing carriage return.
pub open spec fn strip_cr(s: Seq<char>) -> Seq<char> {
    if s.len() > 0 && s.last() == '\r' {
        s.drop_last()
    } else {
        s
    }
}

/// The lines of a text: split at line feeds, a final line feed ending the last
/// line rather than starting an empty one, each line without a trailing `\r`.
pub open spec fn spec_lines(s: Seq<char>) -> Seq<Seq<char>> {
    let parts = split_on(s, seq!['\n']);
    let kept = if s.len() == 0 || s.last() == '\n' {
        parts.drop_last()
    } else {
        parts
    };
    kept.map_values(|l: Seq<char>| strip_cr(l))
}

proof fn lemma_split_nonempty(s: Seq<char>, sep: Seq<char>, start: int, i: int)
    ensures
        crate::textops::split_from(s, sep, start, i).len() >= 1,
    decreases s.len() - i,
{
    if sep.len() == 0 || i < start || start < 0 || i + sep.len() > s.len() {
    } else if occurs_at(s, sep, i) {
        lemma_split_nonempty(s, sep, i + sep.len(), i + sep.len());
    } else {
        lemma_split_nonempty(s, sep, start, i + 1);
    }
}

/// The lines of a text.
pub fn text_lines(s: &str) -> (r: Vec<Vec<char>>)
    ensures
        views(r@) == spec_lines(s@),
{
    let c = chars_of(s);
    let sep: Vec<char> = vec!['\n'];
    let parts = split_by(c.as_slice(), sep.as_slice());
    proof {
        lemma_split_nonempty(c@, sep@, 0, 0);
        assert(sep@ =~= seq!['\n']);
    }
    let n = if c.len() == 0 || c[c.len() - 1] == '\n' { parts.len() - 1 } else { parts.len() };
    let mut out: Vec<Vec<char>> = Vec::new();
    let mut i: usize = 0;
    while i < n
        invariant
            n <= parts@.len(),
            i <= n,
            out@.len() == i,
            forall|k: int| 0 <= k < i ==> (#[trigger] out@[k])@ == strip_cr(parts@[k]@),
        decreases n - i,
    {
        let p = &parts[i];
        let line = if p.len() > 0 && p[p.len() - 1] == '\r' {
            let l = slice_of(p.as_slice(), 0, p.len() - 1);
            assert(l@ =~= p@.drop_last());
            l
        } else {
            slice_of(p.as_slice(), 0, p.len())
        };
        proof {
            assert(p@.subrange(0, p@.len() as int) =~= p@);
        }
        out.push(line);
        i = i + 1;
    }
    proof {
        let want = spec_lines(s@);
        let kept = if c@.len() == 0 || c@.last() == '\n' { views(parts@).drop_last() } else { views(parts@) };
        assert(kept.len() == n);
        assert forall|k: int| 0 <= k < n implies #[trigger] views(out@)[k] == want[k] by {
            assert(kept[k] == parts@[k]@);
        }
        assert(views(out@) =~= want);
    }
    out
}

// ---------------------------------------------------------------------------
// AWS profile files
// ---------------------------------------------------------------------------

/// A section header line: trimmed, it starts with `[` and ends with `]`.
pub open spec fn is_header(t: Seq<char>) -> bool {
    starts_with(t, seq!['[']) && ends_with(t, seq![']'])
}

/// The profiles that a credentials file names: the text between the brackets
/// of every section header, in order.
pub open spec fn spec_profiles(lines: Seq<Seq<char>>) -> Seq<Seq<char>>
    decreases lines.len(),
{
    if lines.len() == 0 {
        Seq::empty()
    } else {
        let rest = spec_profiles(lines.drop_last());
        let t = trim(lines.last());
        if is_header(t) {
            rest.push(t.subrange(1, t.len() - 1))
        } else {
            rest
        }
    }
}

fn bracketed(t: &Vec<char>) -> (r: bool)
    ensures
        r == is_header(t@),
        r ==> t@.len() >= 2,
{
    let n = t.len();
    let r = n >= 1 && t[0] == '[' && t[n - 1] == ']';
    proof {
        if n >= 1 {
            assert(starts_with(t@, seq!['[']) == (t@[0] == '[')) by {
                assert(t@.subrange(0, 1)[0] == t@[0]);
                if t@[0] == '[' {
                    assert(t@.subrange(0, 1) =~= seq!['[']);
                }
            }
            assert(ends_with(t@, seq![']']) == (t@[n - 1] == ']')) by {
                assert(t@.subrange(n - 1, n as int)[0] == t@[n - 1]);
                if t@[n - 1] == ']' {
                    assert(t@.subrange(n - 1, n as int) =~= seq![']']);
                }
            }
        }
    }
    r
}

/// The AWS profiles named by the text of a credentials file.
pub fn parse_aws_profiles(content: &str) -> (r: Vec<String>)
    ensures
        crate::textops::string_views(r@) == spec_profiles(spec_lines(content@)),
{
    let lines = text_lines(content);
    let ghost lv = views(lines@);
    let mut out: Vec<String> = Vec::new();
    let mut i: usize = 0;
    while i < lines.len()
        invariant
            i <= lines@.len(),
            lv == views(lines@),
            lv == spec_lines(content@),
            crate::textops::string_views(out@) == spec_profiles(lv.subrange(0, i as int)),
        decreases lines@.len() - i,
    {
        let t = trim_chars(lines[i].as_slice());
        let ghost before = out@;
        if bracketed(&t) {
            let inner = slice_of(t.as_slice(), 1, t.len() - 1);
            out.push(string_from(inner.as_slice()));
        }
        i = i + 1;
        proof {
            let sub = lv.subrange(0, i as int);
            assert(sub.drop_last() =~= lv.subrange(0, i - 1));
            assert(sub.last() == lines@[i - 1]@);
            assert(crate::textops::string_views(out@) =~= spec_profiles(sub));
        }
    }
    assert(lv.subrange(0, lines@.len() as int) =~= lv);
    out
}

/// The header of a profile's section in the AWS config file.
pub open spec fn spec_profile_header(profile: Seq<char>) -> Seq<char> {
    if profile == "default"@ {
        "[default]"@
    } else {
        "[profile "@ + profile + "]"@
    }
}

/// The part of `s` after its first `=`, if it has one.
pub open spec fn after_equals(s: Seq<char>) -> Option<Seq<char>> {
    if contains(s, seq!['=']) {
        let i = choose|i: int| is_first_occurrence_from(s, seq!['='], 0, i);
        Some(s.subrange(i + 1, s.len() as int))
    } else {
        None
    }
}

/// The region of the first `region...=` line inside the profile's section, scanning
/// the lines from the first; `inside` tells whether the scan is inside the section.
pub open spec fn region_scan(lines: Seq<Seq<char>>, header: Seq<char>, inside: bool) -> Option<Seq<char>>
    decreases lines.len(),
{
    if lines.len() == 0 {
        None
    } else {
        let t = trim(lines[0]);
        if starts_with(t, seq!['[']) {
            region_scan(lines.drop_first(), header, t == header)
        } else if inside && starts_with(t, "region"@) && after_equals(t) is Some {
            Some(trim(after_equals(t)->0))
        } else {
            region_scan(lines.drop_first(), header, inside)
        }
    }
}

fn profile_header(profile: &str) -> (r: Vec<char>)
    ensures
        r@ == spec_profile_header(profile@),
{
    if str_eq(profile, "default") {
        chars_of("[default]")
    } else {
        let mut v = chars_of("[profile ");
        push_str(&mut v, profile);
        push_str(&mut v, "]");
        v
    }
}

/// The region set for `profile` in the text of the AWS config file.
pub fn parse_aws_profile_region(content: &str, profile: &str) -> (r: Option<String>)
    ensures
        opt_view(r) == region_scan(spec_lines(content@), spec_profile_header(profile@), false),
{
    proof {
        reveal_strlit("region");
    }
    let lines = text_lines(content);
    let ghost lv = views(lines@);
    let header = profile_header(profile);
    let region = chars_of("region");
    let eq: Vec<char> = vec!['='];
    let open: Vec<char> = vec!['['];
    let mut inside = false;
    let mut i: usize = 0;
    assert(lv.subrange(0, lv.len() as int) =~= lv);
    while i < lines.len()
        invariant
            i <= lines@.len(),
            lv == views(lines@),
            region@ == "region"@,
            lv == spec_lines(content@),
            header@ == spec_profile_header(profile@),
            eq@ == seq!['='],
            open@ == seq!['['],
            region_scan(lv, header@, false) == region_scan(lv.subrange(i as int, lv.len() as int), header@, inside),
        decreases lines@.len() - i,
    {
        let t = trim_chars(lines[i].as_slice());
        let ghost rest = lv.subrange(i as int, lv.len() as int);
        proof {
            assert(rest[0] == lines@[i as int]@);
            assert(rest.drop_first() =~= lv.subrange(i + 1, lv.len() as int));
        }
        if has_prefix(t.as_slice(), open.as_slice()) {
            inside = crate::text::same_chars(t.as_slice(), header.as_slice());
        } else if inside && has_prefix(t.as_slice(), region.as_slice()) {
            match find_from(t.as_slice(), eq.as_slice(), 0) {
                Some(k) => {
                    proof {
                        assert(contains(t@, seq!['=']));
                        let c = choose|c: int| is_first_occurrence_from(t@, seq!['='], 0, c);
                        if c < k {
                            assert(!occurs_at(t@, eq@, c));
                        }
                        if k < c {
                            assert(!occurs_at(t@, seq!['='], k as int));
                        }
                    }
                    let value = slice_of(t.as_slice(), k + 1, t.len());
                    let tv = trim_chars(value.as_slice());
                    proof {
                        let c = choose|c: int| is_first_occurrence_from(t@, seq!['='], 0, c);
                        assert(c == k);
                        assert(after_equals(t@) == Some(t@.subrange(k + 1, t@.len() as int)));
                        assert(t@ == trim(rest[0]));
                        assert(!starts_with(t@, seq!['[']));
                        assert(starts_with(t@, "region"@));
                        assert(region_scan(rest, header@, inside) == Some(trim(value@)));
                    }
                    return Some(string_from(tv.as_slice()));
                },
                None => {
                    proof {
                        assert(!contains(t@, seq!['='])) by {
                            assert forall|j: int| !occurs_at(t@, seq!['='], j) by {
                                if j >= 0 {
                                    assert(no_occurrence_from(t@, eq@, 0));
                                }
                            }
                        }
                    }
                },
            }
        }
        i = i + 1;
    }
    assert(lv.subrange(i as int, lv.len() as int) =~= Seq::<Seq<char>>::empty());
    None
}

// ---------------------------------------------------------------------------
// Picker items and what they add
// ---------------------------------------------------------------------------

/// The item that selects every profile or vault, discovered when the provider is used.
pub open spec fn is_all_item(s: Seq<char>) -> bool {
    starts_with(s, "[all]"@)
}

/// Whether the "all" item is among the selected items.
pub fn selects_all(selected: &Vec<String>) -> (r: bool)
    ensures
        r == exists|i: int| 0 <= i < selected@.len() && is_all_item(#[trigger] selected@[i]@),
{
    let p = chars_of("[all]");
    let mut i: usize = 0;
    while i < selected.len()
        invariant
            i <= selected@.len(),
            p@ == "[all]"@,
            forall|k: int| 0 <= k < i ==> !is_all_item(#[trigger] selected@[k]@),
        decreases selected@.len() - i,
    {
        let s = chars_of(selected[i].as_str());
        if has_prefix(s.as_slice(), p.as_slice()) {
            return true;
        }
        i = i + 1;
    }
    false
}

/// The picker item of an AWS profile: its name, then ` (region)` if it has one.
pub open spec fn spec_aws_item(profile: Seq<char>, region: Option<Seq<char>>) -> Seq<char> {
    profile + match region {
        Some(r) => " ("@ + r + ")"@,
        None => Seq::empty(),
    }
}

/// The picker item of an AWS profile.
pub fn aws_item(profile: &str, region: Option<&str>) -> (r: String)
    ensures
        r@ == spec_aws_item(profile@, match region { Some(x) => Some(x@), None => None }),
{
    let mut v = chars_of(profile);
    match region {
        Some(x) => {
            push_str(&mut v, " (");
            push_str(&mut v, x);
            push_str(&mut v, ")");
        },
        None => {},
    }
    assert(v@ =~= spec_aws_item(profile@, match region { Some(x) => Some(x@), None => None }));
    string_from(v.as_slice())
}

/// The picker item of a vault or project: `{name} ({id})`.
pub open spec fn spec_labelled_item(name: Seq<char>, id: Seq<char>) -> Seq<char> {
    name + " ("@ + id + ")"@
}

/// The picker item of a named vault or project.
pub fn labelled_item(name: &str, id: &str) -> (r: String)
    ensures
        r@ == spec_labelled_item(name@, id@),
{
    let mut v = chars_of(name);
    push_str(&mut v, " (");
    push_str(&mut v, id);
    push_str(&mut v, ")");
    string_from(v.as_slice())
}

/// Where the first ` (` of `s` starts, if it has one.
pub open spec fn paren_at(s: Seq<char>) -> int {
    choose|i: int| is_first_occurrence_from(s, " ("@, 0, i)
}

/// The profile a picked AWS item names: the text before its first ` (`, trimmed.
pub open spec fn spec_aws_profile_of(sel: Seq<char>) -> Seq<char> {
    if contains(sel, " ("@) {
        trim(sel.subrange(0, paren_at(sel)))
    } else {
        trim(sel)
    }
}

fn first_paren(s: &Vec<char>) -> (r: Option<usize>)
    ensures
        match r {
            Some(i) => contains(s@, " ("@) && i == paren_at(s@) && i + 2 <= s@.len(),
            None => !contains(s@, " ("@),
        },
{
    proof {
        reveal_strlit(" (");
    }
    let p = chars_of(" (");
    match find_from(s.as_slice(), p.as_slice(), 0) {
        Some(i) => {
            proof {
                assert(contains(s@, " ("@));
                let c = paren_at(s@);
                if c < i {
                    assert(!occurs_at(s@, p@, c));
                }
                if i < c {
                    assert(!occurs_at(s@, " ("@, i as int));
                }
            }
            Some(i)
        },
        None => {
            assert(!contains(s@, " ("@)) by {
                assert forall|j: int| !occurs_at(s@, " ("@, j) by {
                    if j >= 0 {
                        assert(no_occurrence_from(s@, p@, 0));
                    }
                }
            }
            None
        },
    }
}

/// The profile a picked AWS item names.
pub fn aws_profile_of(selection: &str) -> (r: String)
    ensures
        r@ == spec_aws_profile_of(selection@),
{
    let s = chars_of(selection);
    let head = match first_paren(&s) {
        Some(i) => slice_of(s.as_slice(), 0, i),
        None => s,
    };
    string_from(trim_chars(head.as_slice()).as_slice())
}

/// `s` without all its trailing `)`.
pub open spec fn trim_close_parens(s: Seq<char>) -> Seq<char>
    decreases s.len(),
{
    if s.len() > 0 && s.last() == ')' {
        trim_close_parens(s.drop_last())
    } else {
        s
    }
}

/// A picked vault or project item split at its first ` (`: the name, and the id
/// (what follows, without trailing `)`); `None` when it has no ` (`.
pub open spec fn spec_split_labelled(sel: Seq<char>) -> Option<(Seq<char>, Seq<char>)> {
    if contains(sel, " ("@) {
        let i = paren_at(sel);
        Some((sel.subrange(0, i), trim_close_parens(sel.subrange(i + 2, sel.len() as int))))
    } else {
        None
    }
}

/// Split a picked vault or project item into its name and id.
pub fn split_labelled(selection: &str) -> (r: Option<(String, String)>)
    ensures
        match (r, spec_split_labelled(selection@)) {
            (Some((n, i)), Some((sn, si))) => n@ == sn && i@ == si,
            (None, None) => true,
            _ => false,
        },
{
    let s = chars_of(selection);
    match first_paren(&s) {
        None => None,
        Some(i) => {
            let name = slice_of(s.as_slice(), 0, i);
            let mut end = s.len();
            while end > i + 2 && s[end - 1] == ')'
                invariant
                    i + 2 <= end <= s@.len(),
                    trim_close_parens(s@.subrange(i + 2, s@.len() as int)) == trim_close_parens(
                        s@.subrange(i + 2, end as int),
                    ),
                decreases end,
            {
                proof {
                    assert(s@.subrange(i + 2, end as int).drop_last() =~= s@.subrange(i + 2, end - 1));
                }
                end = end - 1;
            }
            let id = slice_of(s.as_slice(), i + 2, end);
            Some((string_from(name.as_slice()), string_from(id.as_slice())))
        },
    }
}

/// A provider id made from a prefix and a name: the name lowercased, spaces turned into `-`.
pub open spec fn spec_slug_id(prefix: Seq<char>, name: Seq<char>) -> Seq<char> {
    prefix + replace_all(unicode_lowercase(name), seq![' '], seq!['-'])
}

/// The provider id for a named vault or project.
pub fn slug_id(prefix: &str, name: &str) -> (r: String)
    ensures
        r@ == spec_slug_id(prefix@, name@),
{
    let l = to_lowercase(name);
    let lc = chars_of(l.as_str());
    let sp: Vec<char> = vec![' '];
    let dash: Vec<char> = vec!['-'];
    let body = replace_chars(lc.as_slice(), sp.as_slice(), dash.as_slice());
    let mut v = chars_of(prefix);
    push_all(&mut v, body.as_slice());
    proof {
        assert(sp@ =~= seq![' ']);
        assert(dash@ =~= seq!['-']);
    }
    string_from(v.as_slice())
}

/// The provider an AWS profile adds: id `aws-{profile}`.
pub fn aws_provider(profile: &str, region: Option<String>) -> (r: ProviderConfig)
    ensures
        r@.id == "aws-"@ + profile@,
        r@.kind == "aws"@,
        r@.profile == Some(profile@),
        r.region == region,
{
    let mut id = chars_of("aws-");
    push_str(&mut id, profile);
    ProviderConfig::new_aws(string_from(id.as_slice()), Some(string_from(chars_of(profile).as_slice())), region)
}

/// The 1Password provider a picked vault adds: id `op-{slug}`, the vault by id.
pub fn onepassword_provider(selection: &str) -> (r: Option<ProviderConfig>)
    ensures
        match spec_split_labelled(selection@) {
            Some((name, id)) => r matches Some(p) && p@.id == spec_slug_id("op-"@, name) && p@.kind
                == "onepassword"@ && p@.vault == Some(id) && p.token_env is None,
            None => r is None,
        },
{
    match split_labelled(selection) {
        Some((name, id)) => {
            let pid = slug_id("op-", name.as_str());
            Some(ProviderConfig::new_onepassword(pid, Some(id), None))
        },
        None => None,
    }
}

/// The environment variable holding the Bitwarden access token.
pub open spec fn bitwarden_token_env() -> Seq<char> {
    "BWS_ACCESS_TOKEN"@
}

/// The Bitwarden provider a picked project adds: id `bw-{slug}`, the project by id.
pub fn bitwarden_provider(selection: &str, organization: Option<String>) -> (r: Option<ProviderConfig>)
    ensures
        match spec_split_labelled(selection@) {
            Some((name, id)) => r matches Some(p) && p@.id == spec_slug_id("bw-"@, name) && p@.kind
                == "bw"@ && p@.vault == Some(id) && p.organization == organization && p@.token_env
                == Some(bitwarden_token_env()),
            None => r is None,
        },
{
    match split_labelled(selection) {
        Some((name, id)) => {
            let pid = slug_id("bw-", name.as_str());
            Some(
                ProviderConfig::new_bitwarden(
                    pid,
                    Some(id),
                    organization,
                    Some(string_from(chars_of("BWS_ACCESS_TOKEN").as_slice())),
                ),
            )
        },
        None => None,
    }
}

/// The kinds that name 1Password.
pub open spec fn is_onepassword_kind(k: Seq<char>) -> bool {
    k == "onepassword"@ || k == "1password"@ || k == "op"@
}

/// The kinds that name Bitwarden.
pub open spec fn is_bitwarden_kind(k: Seq<char>) -> bool {
    k == "bw"@ || k == "bitwarden"@ || k == "bws"@
}

/// A kind of the family: Bitwarden if `bitwarden`, else 1Password.
pub open spec fn in_family(kind: Seq<char>, bitwarden: bool) -> bool {
    if bitwarden {
        is_bitwarden_kind(kind)
    } else {
        is_onepassword_kind(kind)
    }
}

fn kind_matches(kind: &str, bitwarden: bool) -> (r: bool)
    ensures
        r == in_family(kind@, bitwarden),
{
    if bitwarden {
        str_eq(kind, "bw") || str_eq(kind, "bitwarden") || str_eq(kind, "bws")
    } else {
        str_eq(kind, "onepassword") || str_eq(kind, "1password") || str_eq(kind, "op")
    }
}

/// Which provider a discovered token is stored for: the first configured provider
/// of the family (Bitwarden if `bitwarden`, else 1Password), or `None` when there is none.
pub fn token_owner(config: &Config, bitwarden: bool) -> (r: Option<String>)
    ensures
        match r {
            Some(id) => exists|i: int|
                0 <= i < config.providers@.len() && in_family(#[trigger] config.providers@[i]@.kind, bitwarden)
                    && id@ == config.providers@[i]@.id && forall|j: int|
                    0 <= j < i ==> !in_family(#[trigger] config.providers@[j]@.kind, bitwarden),
            None => forall|j: int|
                0 <= j < config.providers@.len() ==> !in_family(#[trigger] config.providers@[j]@.kind, bitwarden),
        },
{
    let mut i: usize = 0;
    while i < config.providers.len()
        invariant
            i <= config.providers@.len(),
            forall|j: int| 0 <= j < i ==> !in_family(#[trigger] config.providers@[j]@.kind, bitwarden),
        decreases config.providers@.len() - i,
    {
        if kind_matches(config.providers[i].kind.as_str(), bitwarden) {
            let id = string_from(chars_of(config.providers[i].id.as_str()).as_slice());
            assert(in_family(config.providers@[i as int]@.kind, bitwarden));
            return Some(id);
        }
        i = i + 1;
    }
    None
}

// ---------------------------------------------------------------------------
// Prompts
// ---------------------------------------------------------------------------

/// What a prompt with a default yields: the trimmed answer, or the default when it is empty.
pub open spec fn spec_prompt_answer(input: Seq<char>, default: Seq<char>) -> Seq<char> {
    if trim(input).len() == 0 {
        default
    } else {
        trim(input)
    }
}

/// The value of a prompt with a default.
pub fn prompt_answer(input: &str, default: &str) -> (r: String)
    ensures
        r@ == spec_prompt_answer(input@, default@),
{
    let t = trim_chars(chars_of(input).as_slice());
    if t.len() == 0 {
        string_from(chars_of(default).as_slice())
    } else {
        string_from(t.as_slice())
    }
}

/// A yes/no question is answered yes by `y` or `yes` in any case, surrounding spaces ignored.
pub fn confirm_answer(input: &str) -> (r: bool)
    ensures
        r == (unicode_lowercase(trim(input@)) == "y"@ || unicode_lowercase(trim(input@)) == "yes"@),
{
    let t = string_from(trim_chars(chars_of(input).as_slice()).as_slice());
    let l = to_lowercase(t.as_str());
    str_eq(l.as_str(), "y") || str_eq(l.as_str(), "yes")
}

/// The id of a GCP provider: the answer given, or `gcp-{project}` when it is empty.
pub open spec fn spec_gcp_provider_id(answer: Seq<char>, project: Seq<char>) -> Seq<char> {
    if answer.len() == 0 {
        "gcp-"@ + project
    } else {
        answer
    }
}

/// The id of a GCP provider for `project`, given the answer to the id prompt.
pub fn gcp_provider_id(answer: &str, project: &str) -> (r: String)
    ensures
        r@ == spec_gcp_provider_id(answer@, project@),
{
    if answer.is_empty() {
        let mut v = chars_of("gcp-");
        push_str(&mut v, project);
        string_from(v.as_slice())
    } else {
        string_from(chars_of(answer).as_slice())
    }
}

/// The project `gcloud config get-value project` reports: its trimmed output,
/// unless that is empty or `(unset)`.
pub fn gcloud_project(output: &str) -> (r: Option<String>)
    ensures
        match r {
            Some(p) => p@ == trim(output@) && trim(output@).len() > 0 && trim(output@) != "(unset)"@,
            None => trim(output@).len() == 0 || trim(output@) == "(unset)"@,
        },
{
    let t = trim_chars(chars_of(output).as_slice());
    let unset = chars_of("(unset)");
    if t.len() == 0 || crate::text::same_chars(t.as_slice(), unset.as_slice()) {
        None
    } else {
        Some(string_from(t.as_slice()))
    }
}

/// A variable that is set to something.
pub open spec fn is_set_value(o: Option<String>) -> bool {
    o matches Some(v) && v@.len() > 0
}

/// The first project an environment variable sets (non-empty), in the order given.
pub fn first_project(values: &Vec<Option<String>>) -> (r: Option<String>)
    ensures
        match r {
            Some(p) => exists|i: int|
                0 <= i < values@.len() && is_set_value(#[trigger] values@[i]) && values@[i]->0@ == p@
                    && forall|j: int| 0 <= j < i ==> !is_set_value(#[trigger] values@[j]),
            None => forall|j: int| 0 <= j < values@.len() ==> !is_set_value(#[trigger] values@[j]),
        },
{
    let mut i: usize = 0;
    while i < values.len()
        invariant
            i <= values@.len(),
            forall|j: int| 0 <= j < i ==> !is_set_value(#[trigger] values@[j]),
        decreases values@.len() - i,
    {
        match &values[i] {
            Some(v) => {
                if !v.as_str().is_empty() {
                    return Some(string_from(chars_of(v.as_str()).as_slice()));
                }
            },
            None => {},
        }
        i = i + 1;
    }
    None
}

/// The first item of the AWS picker: every profile, found when the provider is used.
pub open spec fn aws_all_item() -> Seq<char> {
    "[all] - Auto-discover all profiles at runtime"@
}

/// The items of the AWS picker: the "all" item, then each profile with its region.
pub open spec fn spec_aws_picker_items(profiles: Seq<Seq<char>>, regions: Seq<Option<Seq<char>>>) -> Seq<
    Seq<char>,
> {
    seq![aws_all_item()] + Seq::new(profiles.len(), |i: int| spec_aws_item(profiles[i], regions[i]))
}

/// The items of the AWS picker for these profiles, each with its region (if known).
pub fn aws_picker_items(profiles: &Vec<String>, regions: &Vec<Option<String>>) -> (r: Vec<String>)
    requires
        profiles@.len() == regions@.len(),
    ensures
        string_views(r@) == spec_aws_picker_items(
            string_views(profiles@),
            regions@.map_values(|o: Option<String>| opt_view(o)),
        ),
{
    let mut out: Vec<String> = Vec::new();
    out.push(string_from(chars_of("[all] - Auto-discover all profiles at runtime").as_slice()));
    let ghost pv = string_views(profiles@);
    let ghost rv = regions@.map_values(|o: Option<String>| opt_view(o));
    let mut i: usize = 0;
    while i < profiles.len()
        invariant
            i <= profiles@.len(),
            profiles@.len() == regions@.len(),
            pv == string_views(profiles@),
            rv == regions@.map_values(|o: Option<String>| opt_view(o)),
            string_views(out@) == seq![aws_all_item()] + Seq::new(i as nat, |k: int| spec_aws_item(pv[k], rv[k])),
        decreases profiles@.len() - i,
    {
        let region: Option<&str> = match &regions[i] {
            Some(x) => Some(x.as_str()),
            None => None,
        };
        let item = aws_item(profiles[i].as_str(), region);
        let ghost before = string_views(out@);
        out.push(item);
        assert(string_views(out@) =~= before.push(spec_aws_item(pv[i as int], rv[i as int])));
        assert(seq![aws_all_item()] + Seq::new((i + 1) as nat, |k: int| spec_aws_item(pv[k], rv[k])) =~= before.push(
            spec_aws_item(pv[i as int], rv[i as int]),
        ));
        i = i + 1;
    }
    out
}

/// The AWS provider that finds every profile when it is used: id `aws`, profile `all`.
pub fn aws_all_provider() -> (r: ProviderConfig)
    ensures
        r@.id == "aws"@,
        r@.kind == "aws"@,
        r@.profile == Some("all"@),
        r.region is None,
{
    ProviderConfig::new_aws(
        string_from(chars_of("aws").as_slice()),
        Some(string_from(chars_of("all").as_slice())),
        None,
    )
}

/// No line of `lines` is the section header `header` (once trimmed).
pub open spec fn header_absent(lines: Seq<Seq<char>>, header: Seq<char>) -> bool {
    forall|i: int| 0 <= i < lines.len() ==> trim(#[trigger] lines[i]) != header
}

/// `lines` is another section: it opens with a header line that is not `header`,
/// and `header` does not come back in it.
pub open spec fn other_section(lines: Seq<Seq<char>>, header: Seq<char>) -> bool {
    &&& lines.len() > 0
    &&& starts_with(trim(lines[0]), seq!['['])
    &&& header_absent(lines, header)
}

proof fn lemma_scan_outside(lines: Seq<Seq<char>>, header: Seq<char>)
    requires
        header_absent(lines, header),
    ensures
        region_scan(lines, header, false) is None,
    decreases lines.len(),
{
    if lines.len() > 0 {
        assert(trim(lines[0]) != header);
        let rest = lines.drop_first();
        assert forall|i: int| 0 <= i < rest.len() implies trim(#[trigger] rest[i]) != header by {
            assert(rest[i] == lines[i + 1]);
        }
        lemma_scan_outside(rest, header);
    }
}

/// A profile's region comes from its own section: appending sections of other
/// profiles after the text never changes the region found, whatever region lines
/// they hold (from inside the section or outside it alike).
pub proof fn law_region_ignores_other_sections(
    lines: Seq<Seq<char>>,
    more: Seq<Seq<char>>,
    header: Seq<char>,
    inside: bool,
)
    requires
        other_section(more, header),
    ensures
        region_scan(lines + more, header, inside) == region_scan(lines, header, inside),
    decreases lines.len(),
{
    if lines.len() == 0 {
        assert(lines + more =~= more);
        let t = trim(more[0]);
        assert(t != header);
        let rest = more.drop_first();
        assert forall|i: int| 0 <= i < rest.len() implies trim(#[trigger] rest[i]) != header by {
            assert(rest[i] == more[i + 1]);
        }
        lemma_scan_outside(rest, header);
    } else {
        assert((lines + more)[0] == lines[0]);
        assert((lines + more).drop_first() =~= lines.drop_first() + more);
        let t = trim(lines[0]);
        law_region_ignores_other_sections(lines.drop_first(), more, header, t == header);
        law_region_ignores_other_sections(lines.drop_first(), more, header, inside);
    }
}

/// The region of a profile whose section holds no region line is never another
/// section's: a section without a region, followed by another profile's section,
/// gives no region at all.
pub proof fn law_no_region_borrowed(section: Seq<Seq<char>>, more: Seq<Seq<char>>, header: Seq<char>)
    requires
        region_scan(section, header, false) is None,
        other_section(more, header),
    ensures
        region_scan(section + more, header, false) is None,
{
    law_region_ignores_other_sections(section, more, header, false);
}

} // verus!
